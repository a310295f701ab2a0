use vstd::prelude::*;
use crate::geometry::ColorF;
use crate::ids::{DisplayListId, DrawListId, Epoch, PipelineId, StackingContextId};
use crate::display_item::DisplayListItemView;
use crate::model::{commits, handles_in, ingests, realizes, superseded, SceneView, Site};
use crate::resource_cache::DrawLists;

verus! {

/// Sweep completeness: once a pipeline has committed at an epoch, the scene
/// holds no display list and no stacking context of that pipeline from a
/// strictly older epoch.
pub proof fn lemma_sweep_complete(
    before: SceneView,
    pipeline_id: PipelineId,
    epoch: Epoch,
    root: StackingContextId,
    background: Option<DrawListId>,
)
    ensures
        forall|id: DisplayListId|
            !(#[trigger] before.committed(pipeline_id, epoch, root, background).stale_display_list(
                id,
                pipeline_id,
                epoch,
            )),
        forall|id: StackingContextId|
            !(#[trigger] before.committed(
                pipeline_id,
                epoch,
                root,
                background,
            ).stale_stacking_context(id, pipeline_id, epoch)),
{
}

/// No premature sweep: a commit leaves in place, unchanged, every display
/// list and stacking context that is of another pipeline or is not strictly
/// older than the commit, and the committed root of every other pipeline.
/// It adds no display list and no stacking context, and it keeps the root
/// pipeline.
pub proof fn lemma_no_premature_sweep(
    before: SceneView,
    pipeline_id: PipelineId,
    epoch: Epoch,
    root: StackingContextId,
    background: Option<DrawListId>,
)
    ensures
        ({
            let after = before.committed(pipeline_id, epoch, root, background);
            &&& forall|id: DisplayListId| #[trigger]
                before.display_lists.contains_key(id) && !superseded(
                    before.display_lists[id].pipeline_id,
                    before.display_lists[id].epoch,
                    pipeline_id,
                    epoch,
                ) ==> after.display_lists.contains_key(id) && after.display_lists[id]
                    == before.display_lists[id]
            &&& forall|id: StackingContextId| #[trigger]
                before.stacking_contexts.contains_key(id) && !superseded(
                    before.stacking_contexts[id].pipeline_id,
                    before.stacking_contexts[id].epoch,
                    pipeline_id,
                    epoch,
                ) ==> after.stacking_contexts.contains_key(id) && after.stacking_contexts[id]
                    == before.stacking_contexts[id]
            &&& forall|other: PipelineId| #[trigger]
                before.pipelines.contains_key(other) && other != pipeline_id
                    ==> after.pipelines.contains_key(other) && after.pipelines[other]
                    == before.pipelines[other]
            &&& after.display_lists.dom().subset_of(before.display_lists.dom())
            &&& after.stacking_contexts.dom().subset_of(before.stacking_contexts.dom())
            &&& after.pipelines.dom() == before.pipelines.dom().insert(pipeline_id)
            &&& after.root_pipeline_id == before.root_pipeline_id
        }),
{
}

/// A commit keeps the draw lists it does not give back: a handle that stands
/// at a site the commit leaves in place is live afterwards, with the draw
/// list it had, provided the scene drew on the cache before.
pub proof fn lemma_commit_keeps_draw_lists(
    before: SceneView,
    live_before: DrawLists,
    pipeline_id: PipelineId,
    epoch: Epoch,
    root: StackingContextId,
    background_color: ColorF,
    after: SceneView,
    live_after: DrawLists,
    site: Site,
)
    requires
        before.draws_on(live_before),
        commits(
            before,
            live_before,
            pipeline_id,
            epoch,
            root,
            background_color,
            after,
            live_after,
        ),
        before.handle_at(site) is Some,
        !before.releases(site, pipeline_id, epoch),
    ensures
        after.handle_at(site) == before.handle_at(site),
        live_after.contains_key(before.handle_at(site).unwrap()),
        live_after[before.handle_at(site).unwrap()] == live_before[before.handle_at(site).unwrap()],
{
    let handle = before.handle_at(site).unwrap();
    assert(before.draw_lists().contains(handle));
    let released = before.released_draw_lists(pipeline_id, epoch);
    if released.contains(handle) {
        let other = choose|other: Site|
            before.releases(other, pipeline_id, epoch) && before.handle_at(other) == Some(handle);
        assert(before.handle_at(other) == before.handle_at(site));
        assert(false);
    }
}

/// Idempotent re-commit: a second commit of the same pipeline, epoch and
/// root finds nothing to sweep, and leaves a scene that differs from the
/// one after the first commit in the handle of the background at most.
pub proof fn lemma_recommit(
    before: SceneView,
    pipeline_id: PipelineId,
    epoch: Epoch,
    root: StackingContextId,
    first: Option<DrawListId>,
    second: Option<DrawListId>,
)
    ensures
        ({
            let once = before.committed(pipeline_id, epoch, root, first);
            let twice = once.committed(pipeline_id, epoch, root, second);
            &&& once.swept(pipeline_id, epoch) == once
            &&& once.swept_draw_lists(pipeline_id, epoch) == Set::<DrawListId>::empty()
            &&& twice == before.committed(pipeline_id, epoch, root, second)
            &&& twice.display_lists == once.display_lists
            &&& twice.stacking_contexts == once.stacking_contexts
            &&& twice.pipelines.dom() == once.pipelines.dom()
            &&& first == second ==> twice == once
        }),
{
    let once = before.committed(pipeline_id, epoch, root, first);
    let twice = once.committed(pipeline_id, epoch, root, second);
    assert(once.swept(pipeline_id, epoch).display_lists =~= once.display_lists);
    assert(once.swept(pipeline_id, epoch).stacking_contexts =~= once.stacking_contexts);
    assert(once.swept_draw_lists(pipeline_id, epoch) =~= Set::<DrawListId>::empty());
    assert(twice.pipelines =~= before.committed(pipeline_id, epoch, root, second).pipelines);
    assert(twice.pipelines.dom() =~= once.pipelines.dom());
    if first == second {
        assert(twice.pipelines =~= once.pipelines);
    }
}

/// The handles of a scene stand in its display lists and committed roots
/// only: two scenes that agree on those refer to the same draw lists. So a
/// new stacking context or another root pipeline changes nothing in what the
/// scene draws on.
pub proof fn lemma_handles_in_lists_and_roots(a: SceneView, b: SceneView, live: DrawLists)
    requires
        a.display_lists == b.display_lists,
        a.pipelines == b.pipelines,
    ensures
        forall|site: Site| a.handle_at(site) == b.handle_at(site),
        a.draw_lists() == b.draw_lists(),
        a.draws_on(live) == b.draws_on(live),
        a.accounts_for(live) == b.accounts_for(live),
{
    assert(forall|site: Site| a.handle_at(site) == b.handle_at(site));
    assert(a.draw_lists() =~= b.draw_lists());
}

/// A scene that draws on a cache can commit: every handle a commit would
/// give back is live and stands at one site.
pub proof fn lemma_draws_on_can_release(
    scene: SceneView,
    live: DrawLists,
    pipeline_id: PipelineId,
    epoch: Epoch,
)
    requires
        scene.draws_on(live),
    ensures
        scene.can_release(pipeline_id, epoch, live),
{
    assert forall|site: Site| #[trigger] scene.releases(site, pipeline_id, epoch) implies live.contains_key(
        scene.handle_at(site).unwrap(),
    ) by {
        assert(scene.draw_lists().contains(scene.handle_at(site).unwrap()));
    }
}

/// Draw-list conservation over a commit: where the scene accounted for the
/// live draw lists before, it does so afterwards. The commit leaks no
/// handle and gives none back twice.
pub proof fn lemma_commit_conserves(
    before: SceneView,
    live_before: DrawLists,
    pipeline_id: PipelineId,
    epoch: Epoch,
    root: StackingContextId,
    background_color: ColorF,
    after: SceneView,
    live_after: DrawLists,
)
    requires
        before.accounts_for(live_before),
        commits(
            before,
            live_before,
            pipeline_id,
            epoch,
            root,
            background_color,
            after,
            live_after,
        ),
    ensures
        after.accounts_for(live_after),
{
    lemma_commit_keeps_ownership(
        before,
        live_before,
        pipeline_id,
        epoch,
        root,
        background_color,
        after,
        live_after,
    );
    let there = Site::Background { pipeline: pipeline_id };
    let released = before.released_draw_lists(pipeline_id, epoch);
    assert forall|handle: DrawListId| live_after.dom().contains(handle) implies after.draw_lists().contains(
        handle,
    ) by {
        if after.handle_at(there) == Some(handle) {
        } else {
            assert(live_before.dom().contains(handle) && !released.contains(handle));
            assert(before.draw_lists().contains(handle));
            let site = choose|site: Site| before.handle_at(site) == Some(handle);
            assert(!before.releases(site, pipeline_id, epoch));
            assert(after.handle_at(site) == Some(handle));
        }
    }
    assert(after.draw_lists() =~= live_after.dom());
}

/// Over a commit, a scene that drew on the live draw lists before draws on
/// them afterwards: no handle is left dangling and none stands twice.
pub proof fn lemma_commit_keeps_ownership(
    before: SceneView,
    live_before: DrawLists,
    pipeline_id: PipelineId,
    epoch: Epoch,
    root: StackingContextId,
    background_color: ColorF,
    after: SceneView,
    live_after: DrawLists,
)
    requires
        before.draws_on(live_before),
        commits(
            before,
            live_before,
            pipeline_id,
            epoch,
            root,
            background_color,
            after,
            live_after,
        ),
    ensures
        after.draws_on(live_after),
{
    let there = Site::Background { pipeline: pipeline_id };
    let swept = before.swept_draw_lists(pipeline_id, epoch);
    let released = before.released_draw_lists(pipeline_id, epoch);
    // A handle that stays in the scene stood there before, at a site that
    // the commit leaves alone.
    assert forall|site: Site| after.handle_at(site) is Some && site != there implies before.handle_at(
        site,
    ) == after.handle_at(site) && !before.releases(site, pipeline_id, epoch)
        && live_before.contains_key(after.handle_at(site).unwrap()) && !released.contains(
        after.handle_at(site).unwrap(),
    ) && !swept.contains(after.handle_at(site).unwrap()) by {
        let handle = after.handle_at(site).unwrap();
        assert(before.handle_at(site) == Some(handle));
        assert(before.draw_lists().contains(handle));
        if released.contains(handle) {
            let other = choose|other: Site|
                before.releases(other, pipeline_id, epoch) && before.handle_at(other) == Some(
                    handle,
                );
            assert(before.handle_at(other) == before.handle_at(site));
        }
        if swept.contains(handle) {
            let other = choose|other: Site|
                before.sweeps(other, pipeline_id, epoch) && before.handle_at(other) == Some(handle);
            assert(before.handle_at(other) == before.handle_at(site));
        }
    }
    assert forall|a: Site, b: Site|
        #![trigger after.handle_at(a), after.handle_at(b)]
        after.handle_at(a) is Some && after.handle_at(a) == after.handle_at(b) implies a == b by {
        if a != there && b != there {
            assert(before.handle_at(a) == before.handle_at(b));
        }
    }
    assert forall|handle: DrawListId| after.draw_lists().contains(handle) implies live_after.dom().contains(
        handle,
    ) by {
        let site = choose|site: Site| after.handle_at(site) == Some(handle);
        if site != there {
            assert(!released.contains(handle));
        }
    }
}

/// Over the ingestion of a display list, a scene that drew on the live draw
/// lists before draws on them afterwards.
pub proof fn lemma_ingest_keeps_ownership(
    before: SceneView,
    live_before: DrawLists,
    id: DisplayListId,
    pipeline_id: PipelineId,
    epoch: Epoch,
    items: Seq<DisplayListItemView>,
    after: SceneView,
    live_after: DrawLists,
)
    requires
        before.draws_on(live_before),
        ingests(before, live_before, id, pipeline_id, epoch, items, after, live_after),
    ensures
        after.draws_on(live_after),
{
    let entries = after.display_lists[id].items;
    // A handle of the new display list is fresh; any other stood in the
    // scene before, at the same site.
    assert forall|site: Site| after.handle_at(site) is Some implies (match site {
        Site::Item { list, index } if list == id => !live_before.contains_key(
            after.handle_at(site).unwrap(),
        ) && live_after.contains_key(after.handle_at(site).unwrap()),
        _ => before.handle_at(site) == after.handle_at(site) && live_before.contains_key(
            after.handle_at(site).unwrap(),
        ),
    }) by {
        match site {
            Site::Item { list, index } if list == id => {
                assert(realizes(items[index], entries[index], live_before, live_after));
            },
            _ => {
                assert(before.handle_at(site) == after.handle_at(site));
                assert(before.draw_lists().contains(after.handle_at(site).unwrap()));
            },
        }
    }
    assert forall|a: Site, b: Site|
        #![trigger after.handle_at(a), after.handle_at(b)]
        after.handle_at(a) is Some && after.handle_at(a) == after.handle_at(b) implies a == b by {
        match (a, b) {
            (Site::Item { list: la, index: ia }, Site::Item { list: lb, index: ib }) if la == id
                && lb == id => {
                assert(entries[ia].draw_list() == entries[ib].draw_list());
            },
            _ => {
                assert(before.handle_at(a) == after.handle_at(a) || before.handle_at(b)
                    == after.handle_at(b));
            },
        }
    }
    assert forall|handle: DrawListId| after.draw_lists().contains(handle) implies live_after.dom().contains(
        handle,
    ) by {
        let site = choose|site: Site| after.handle_at(site) == Some(handle);
        assert(after.handle_at(site) is Some);
    }
}

/// Draw-list conservation over an ingestion: where the scene accounted for
/// the live draw lists before, and the display list that is replaced, if
/// any, referred to no draw list, the scene accounts for them afterwards.
pub proof fn lemma_ingest_conserves(
    before: SceneView,
    live_before: DrawLists,
    id: DisplayListId,
    pipeline_id: PipelineId,
    epoch: Epoch,
    items: Seq<DisplayListItemView>,
    after: SceneView,
    live_after: DrawLists,
)
    requires
        before.accounts_for(live_before),
        ingests(before, live_before, id, pipeline_id, epoch, items, after, live_after),
        forall|index: int| before.handle_at(Site::Item { list: id, index }) is None,
    ensures
        after.accounts_for(live_after),
{
    lemma_ingest_keeps_ownership(
        before,
        live_before,
        id,
        pipeline_id,
        epoch,
        items,
        after,
        live_after,
    );
    let entries = after.display_lists[id].items;
    assert forall|handle: DrawListId| live_after.dom().contains(handle) implies after.draw_lists().contains(
        handle,
    ) by {
        if handles_in(entries, entries.len() as int).contains(handle) {
            let i = choose|i: int|
                0 <= i < entries.len() && #[trigger] entries[i].draw_list() == Some(handle);
            assert(after.handle_at(Site::Item { list: id, index: i }) == Some(handle));
        } else {
            assert(before.draw_lists().contains(handle));
            let site = choose|site: Site| before.handle_at(site) == Some(handle);
            assert(after.handle_at(site) == Some(handle));
        }
    }
    assert(after.draw_lists() =~= live_after.dom());
}

/// Background lifecycle: a commit with a visible colour takes exactly one
/// draw list into the cache, the background of the new root; a commit with
/// an invisible colour takes none in and leaves the root without a
/// background. Either way the background of the root that is replaced is
/// no longer live.
pub proof fn lemma_background_lifecycle(
    before: SceneView,
    live_before: DrawLists,
    pipeline_id: PipelineId,
    epoch: Epoch,
    root: StackingContextId,
    background_color: ColorF,
    after: SceneView,
    live_after: DrawLists,
)
    requires
        before.can_release(pipeline_id, epoch, live_before),
        commits(
            before,
            live_before,
            pipeline_id,
            epoch,
            root,
            background_color,
            after,
            live_after,
        ),
    ensures
        ({
            let there = Site::Background { pipeline: pipeline_id };
            let kept = live_before.remove_keys(before.released_draw_lists(pipeline_id, epoch));
            &&& background_color.visible() ==> after.handle_at(there) is Some && !kept.contains_key(
                after.handle_at(there).unwrap(),
            ) && live_after.dom() == kept.dom().insert(after.handle_at(there).unwrap())
            &&& !background_color.visible() ==> after.handle_at(there) is None && live_after == kept
            &&& before.handle_at(there) is Some ==> !live_after.contains_key(
                before.handle_at(there).unwrap(),
            )
        }),
{
    let there = Site::Background { pipeline: pipeline_id };
    let released = before.released_draw_lists(pipeline_id, epoch);
    let swept = before.swept_draw_lists(pipeline_id, epoch);
    let kept = live_before.remove_keys(released);
    if before.handle_at(there) is Some {
        let former = before.handle_at(there).unwrap();
        assert(before.releases(there, pipeline_id, epoch));
        assert(released.contains(former));
        if swept.contains(former) {
            let other = choose|other: Site|
                before.sweeps(other, pipeline_id, epoch) && before.handle_at(other) == Some(former);
            assert(before.releases(other, pipeline_id, epoch));
        }
        assert(live_before.remove_keys(swept).contains_key(former));
    }
    if background_color.visible() {
        let handle = after.handle_at(there).unwrap();
        assert(released.contains(handle) ==> !kept.contains_key(handle));
        assert(live_after.dom() =~= kept.dom().insert(handle));
    }
}

/// After a commit, a commit of the same pipeline at the same epoch would
/// give back nothing but the background that the first one made.
pub proof fn lemma_recommit_releases_background_only(
    before: SceneView,
    pipeline_id: PipelineId,
    epoch: Epoch,
    root: StackingContextId,
    background: Option<DrawListId>,
)
    ensures
        before.committed(pipeline_id, epoch, root, background).released_draw_lists(
            pipeline_id,
            epoch,
        ) == (match background {
            Some(handle) => Set::<DrawListId>::empty().insert(handle),
            None => Set::<DrawListId>::empty(),
        }),
{
    let once = before.committed(pipeline_id, epoch, root, background);
    let there = Site::Background { pipeline: pipeline_id };
    let expected = match background {
        Some(handle) => Set::<DrawListId>::empty().insert(handle),
        None => Set::<DrawListId>::empty(),
    };
    assert forall|handle: DrawListId|
        once.released_draw_lists(pipeline_id, epoch).contains(handle) <==> expected.contains(
            handle,
        ) by {
        if expected.contains(handle) {
            assert(once.releases(there, pipeline_id, epoch));
            assert(once.handle_at(there) == Some(handle));
        }
    }
    assert(once.released_draw_lists(pipeline_id, epoch) =~= expected);
}

} // verus!
