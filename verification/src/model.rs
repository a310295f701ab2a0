use vstd::prelude::*;
use crate::display_item::{background_fill, DisplayListItemView, SubmittedView};
use crate::geometry::ColorF;
use crate::ids::{DisplayListId, DrawListId, Epoch, PipelineId, StackingContextId};
use crate::resource_cache::DrawLists;
use crate::scene::{SceneItem, ScenePipeline, SceneStackingContext, SpecificSceneItem};

verus! {

/// What a `SceneDisplayList` holds.
pub ghost struct DisplayListView {
    pub pipeline_id: PipelineId,
    pub epoch: Epoch,
    pub items: Seq<SceneItem>,
}

/// What a `Scene` holds: the entries of its three tables, each under its
/// identifier, and the pipeline that is shown at the top.
pub ghost struct SceneView {
    pub root_pipeline_id: Option<PipelineId>,
    pub pipelines: Map<PipelineId, ScenePipeline>,
    pub display_lists: Map<DisplayListId, DisplayListView>,
    pub stacking_contexts: Map<StackingContextId, SceneStackingContext>,
}

/// A place in a scene where a draw-list handle can stand.
pub ghost enum Site {
    /// Entry `index` of the display list `list`.
    Item { list: DisplayListId, index: int },
    /// The background of the committed root of `pipeline`.
    Background { pipeline: PipelineId },
}

/// An entry that `owner` submitted at epoch `stamp` is superseded once
/// `pipeline_id` commits at `epoch`: same pipeline, strictly older.
pub open spec fn superseded(
    owner: PipelineId,
    stamp: Epoch,
    pipeline_id: PipelineId,
    epoch: Epoch,
) -> bool {
    owner == pipeline_id && stamp.0 < epoch.0
}

impl SceneItem {
    /// The draw list that this entry refers to, if it refers to one.
    pub open spec fn draw_list(self) -> Option<DrawListId> {
        match self.specific {
            SpecificSceneItem::DrawList(handle) => Some(handle),
            _ => None,
        }
    }
}

impl SceneView {
    /// The scene with nothing in it.
    pub open spec fn empty() -> SceneView {
        SceneView {
            root_pipeline_id: None,
            pipelines: Map::empty(),
            display_lists: Map::empty(),
            stacking_contexts: Map::empty(),
        }
    }

    /// The handle that stands at `site`, if one does.
    pub open spec fn handle_at(self, site: Site) -> Option<DrawListId> {
        match site {
            Site::Item { list, index } => {
                if self.display_lists.contains_key(list) && 0 <= index
                    < self.display_lists[list].items.len() {
                    self.display_lists[list].items[index].draw_list()
                } else {
                    None
                }
            },
            Site::Background { pipeline } => {
                if self.pipelines.contains_key(pipeline) {
                    self.pipelines[pipeline].background_draw_list
                } else {
                    None
                }
            },
        }
    }

    /// The handles that the scene refers to.
    pub open spec fn draw_lists(self) -> Set<DrawListId> {
        Set::new(|handle: DrawListId| exists|site: Site| self.handle_at(site) == Some(handle))
    }

    /// No handle stands at two sites of the scene.
    pub open spec fn exclusive(self) -> bool {
        forall|a: Site, b: Site|
            #![trigger self.handle_at(a), self.handle_at(b)]
            self.handle_at(a) is Some && self.handle_at(a) == self.handle_at(b) ==> a == b
    }

    /// The scene draws on `live`: every handle it refers to is live, and
    /// none stands at two sites.
    pub open spec fn draws_on(self, live: DrawLists) -> bool {
        &&& self.exclusive()
        &&& self.draw_lists().subset_of(live.dom())
    }

    /// The scene accounts for `live`: it draws on it, and every live handle
    /// stands somewhere in the scene.
    pub open spec fn accounts_for(self, live: DrawLists) -> bool {
        &&& self.exclusive()
        &&& self.draw_lists() == live.dom()
    }

    /// The display list under `id` is superseded by a commit of
    /// `pipeline_id` at `epoch`.
    pub open spec fn stale_display_list(
        self,
        id: DisplayListId,
        pipeline_id: PipelineId,
        epoch: Epoch,
    ) -> bool {
        self.display_lists.contains_key(id) && superseded(
            self.display_lists[id].pipeline_id,
            self.display_lists[id].epoch,
            pipeline_id,
            epoch,
        )
    }

    /// The stacking context under `id` is superseded by a commit of
    /// `pipeline_id` at `epoch`.
    pub open spec fn stale_stacking_context(
        self,
        id: StackingContextId,
        pipeline_id: PipelineId,
        epoch: Epoch,
    ) -> bool {
        self.stacking_contexts.contains_key(id) && superseded(
            self.stacking_contexts[id].pipeline_id,
            self.stacking_contexts[id].epoch,
            pipeline_id,
            epoch,
        )
    }

    /// The scene without the display lists and stacking contexts that a
    /// commit of `pipeline_id` at `epoch` supersedes.
    pub open spec fn swept(self, pipeline_id: PipelineId, epoch: Epoch) -> SceneView {
        SceneView {
            display_lists: self.display_lists.remove_keys(
                Set::new(|id: DisplayListId| self.stale_display_list(id, pipeline_id, epoch)),
            ),
            stacking_contexts: self.stacking_contexts.remove_keys(
                Set::new(|id: StackingContextId| self.stale_stacking_context(id, pipeline_id, epoch)),
            ),
            ..self
        }
    }

    /// The scene after `pipeline_id` commits `root` at `epoch` with the
    /// given background: swept, and with the new root in place of any
    /// earlier one of that pipeline.
    pub open spec fn committed(
        self,
        pipeline_id: PipelineId,
        epoch: Epoch,
        root: StackingContextId,
        background: Option<DrawListId>,
    ) -> SceneView {
        SceneView {
            pipelines: self.pipelines.insert(
                pipeline_id,
                ScenePipeline {
                    pipeline_id,
                    epoch,
                    background_draw_list: background,
                    root_stacking_context_id: root,
                },
            ),
            ..self.swept(pipeline_id, epoch)
        }
    }

    /// A handle stands at `site`, in a display list that a commit of
    /// `pipeline_id` at `epoch` sweeps.
    pub open spec fn sweeps(self, site: Site, pipeline_id: PipelineId, epoch: Epoch) -> bool {
        &&& self.handle_at(site) is Some
        &&& site matches Site::Item { list, .. } && self.stale_display_list(list, pipeline_id, epoch)
    }

    /// A handle stands at `site`, and a commit of `pipeline_id` at `epoch`
    /// gives it back: the site is swept, or is the background of the root
    /// that the commit replaces.
    pub open spec fn releases(self, site: Site, pipeline_id: PipelineId, epoch: Epoch) -> bool {
        ||| self.sweeps(site, pipeline_id, epoch)
        ||| self.handle_at(site) is Some && site == (Site::Background { pipeline: pipeline_id })
    }

    /// The handles in the display lists that a commit sweeps.
    pub open spec fn swept_draw_lists(self, pipeline_id: PipelineId, epoch: Epoch) -> Set<
        DrawListId,
    > {
        Set::new(
            |handle: DrawListId|
                exists|site: Site|
                    self.sweeps(site, pipeline_id, epoch) && self.handle_at(site) == Some(handle),
        )
    }

    /// The handles that a commit gives back.
    pub open spec fn released_draw_lists(self, pipeline_id: PipelineId, epoch: Epoch) -> Set<
        DrawListId,
    > {
        Set::new(
            |handle: DrawListId|
                exists|site: Site|
                    self.releases(site, pipeline_id, epoch) && self.handle_at(site) == Some(handle),
        )
    }

    /// Every handle that a commit of `pipeline_id` at `epoch` gives back is
    /// live, and stands at one site only among those the commit gives back.
    pub open spec fn can_release(
        self,
        pipeline_id: PipelineId,
        epoch: Epoch,
        live: DrawLists,
    ) -> bool {
        &&& forall|site: Site| #[trigger]
            self.releases(site, pipeline_id, epoch) ==> live.contains_key(
                self.handle_at(site).unwrap(),
            )
        &&& forall|a: Site, b: Site|
            #![trigger self.releases(a, pipeline_id, epoch), self.releases(b, pipeline_id, epoch)]
            self.releases(a, pipeline_id, epoch) && self.releases(b, pipeline_id, epoch)
                && self.handle_at(a) == self.handle_at(b) ==> a == b
    }

    /// A commit of `root` for `pipeline_id` at `epoch` can be made: what it
    /// gives back can be given back, the root is in the scene, and a root
    /// that needs a background is not itself superseded by the commit.
    pub open spec fn can_commit(
        self,
        pipeline_id: PipelineId,
        epoch: Epoch,
        root: StackingContextId,
        background_color: ColorF,
        live: DrawLists,
    ) -> bool {
        &&& self.can_release(pipeline_id, epoch, live)
        &&& self.stacking_contexts.contains_key(root)
        &&& background_color.visible() ==> !self.stale_stacking_context(root, pipeline_id, epoch)
    }
}

/// What a commit of `pipeline_id` at `epoch` does to a scene and to the draw
/// lists it refers to.
///
/// The scene is swept and the new root stands in it. A background is made
/// if and only if the colour is visible: one filled rectangle over the
/// overflow area of the root stacking context, under a handle that was not
/// live once the swept draw lists were gone. Every handle that the commit
/// gives back is gone, and every other draw list is as it was.
pub open spec fn commits(
    before: SceneView,
    live_before: DrawLists,
    pipeline_id: PipelineId,
    epoch: Epoch,
    root: StackingContextId,
    background_color: ColorF,
    after: SceneView,
    live_after: DrawLists,
) -> bool {
    let background = after.pipelines[pipeline_id].background_draw_list;
    let kept = live_before.remove_keys(before.released_draw_lists(pipeline_id, epoch));
    &&& after == before.committed(pipeline_id, epoch, root, background)
    &&& background is Some <==> background_color.visible()
    &&& match background {
        Some(handle) => {
            &&& !live_before.remove_keys(before.swept_draw_lists(pipeline_id, epoch)).contains_key(
                handle,
            )
            &&& live_after == kept.insert(handle, live_after[handle])
            &&& background_fill(
                live_after[handle],
                background_color,
                before.stacking_contexts[root].stacking_context.overflow,
            )
        },
        None => live_after == kept,
    }
}

/// `entry` is what the submitted `item` becomes in the scene.
///
/// It keeps the stacking level. A group of drawable items becomes the
/// handle under which the cache took the group in: a handle that was not
/// live before. A stacking context becomes its identifier, and a link to
/// another pipeline stays as it is.
pub open spec fn realizes(
    item: DisplayListItemView,
    entry: SceneItem,
    live_before: DrawLists,
    live_after: DrawLists,
) -> bool {
    &&& entry.stacking_level == item.stacking_level
    &&& match item.specific {
        SubmittedView::DrawList(items) => {
            &&& entry.specific matches SpecificSceneItem::DrawList(handle)
            &&& !live_before.contains_key(handle)
            &&& live_after.contains_key(handle)
            &&& live_after[handle] == items
        },
        SubmittedView::StackingContext(id) => entry.specific == SpecificSceneItem::StackingContext(
            id,
        ),
        SubmittedView::Iframe(info) => entry.specific == SpecificSceneItem::Iframe(Box::new(info)),
    }
}

/// The handles in the first `n` of `entries`.
pub open spec fn handles_in(entries: Seq<SceneItem>, n: int) -> Set<DrawListId> {
    Set::new(
        |handle: DrawListId|
            exists|i: int| 0 <= i < n && #[trigger] entries[i].draw_list() == Some(handle),
    )
}

/// No handle stands twice in `entries`.
pub open spec fn distinct_handles(entries: Seq<SceneItem>) -> bool {
    forall|i: int, j: int|
        0 <= i < j < entries.len() && (#[trigger] entries[i].draw_list()) is Some
            ==> entries[i].draw_list() != #[trigger] entries[j].draw_list()
}

/// What the ingestion of the display list `id` does to a scene and to the
/// draw lists it refers to.
///
/// The display list stands under `id`, in place of any that stood there,
/// with one entry for each submitted item, in their order. Each drawable
/// group is live under a handle of its own. Nothing else in the scene
/// changes, and no draw list is given back: those of a display list that
/// was replaced stay live.
pub open spec fn ingests(
    before: SceneView,
    live_before: DrawLists,
    id: DisplayListId,
    pipeline_id: PipelineId,
    epoch: Epoch,
    items: Seq<DisplayListItemView>,
    after: SceneView,
    live_after: DrawLists,
) -> bool {
    let entries = after.display_lists[id].items;
    &&& after == (SceneView {
        display_lists: before.display_lists.insert(
            id,
            DisplayListView { pipeline_id, epoch, items: entries },
        ),
        ..before
    })
    &&& entries.len() == items.len()
    &&& forall|i: int|
        0 <= i < items.len() ==> realizes(items[i], #[trigger] entries[i], live_before, live_after)
    &&& distinct_handles(entries)
    &&& live_after.dom() == live_before.dom().union(handles_in(entries, entries.len() as int))
    &&& forall|handle: DrawListId| #[trigger]
        live_before.contains_key(handle) ==> live_after[handle] == live_before[handle]
}

} // verus!
