use vstd::prelude::*;
use fnv::FnvHashMap;
use crate::builder::DisplayListBuilder;
use crate::display_item::{
    root_background, IframeInfo, SpecificDisplayListItem, StackingContext, StackingLevel,
};
use crate::geometry::ColorF;
use crate::ids::{DisplayListId, DrawListId, Epoch, PipelineId, StackingContextId};
use crate::model::{
    commits, distinct_handles, handles_in, ingests, realizes, DisplayListView, SceneView, Site,
};
use crate::resource_cache::ResourceCache;
use crate::table;

verus! {

/// The committed root of one pipeline.
#[derive(Clone, Copy, Debug, PartialEq, Eq, Structural)]
pub struct ScenePipeline {
    pub pipeline_id: PipelineId,
    pub epoch: Epoch,
    pub background_draw_list: Option<DrawListId>,
    pub root_stacking_context_id: StackingContextId,
}

#[derive(Clone, Debug, PartialEq, Eq)]
pub enum SpecificSceneItem {
    /// A draw list that the resource cache holds for the scene.
    DrawList(DrawListId),
    /// A stacking context, by the identifier it is submitted under.
    StackingContext(StackingContextId),
    /// A link to the content of another pipeline.
    Iframe(Box<IframeInfo>),
}

/// One entry of an ingested display list.
#[derive(Clone, Debug, PartialEq, Eq)]
pub struct SceneItem {
    pub stacking_level: StackingLevel,
    pub specific: SpecificSceneItem,
}

/// An ingested display list.
pub struct SceneDisplayList {
    pub pipeline_id: PipelineId,
    pub epoch: Epoch,
    pub items: Vec<SceneItem>,
}

impl View for SceneDisplayList {
    type V = DisplayListView;

    open spec fn view(&self) -> DisplayListView {
        DisplayListView { pipeline_id: self.pipeline_id, epoch: self.epoch, items: self.items@ }
    }
}

/// An ingested stacking context.
pub struct SceneStackingContext {
    pub pipeline_id: PipelineId,
    pub epoch: Epoch,
    pub stacking_context: StackingContext,
}

/// The scene graph: every live pipeline, display list and stacking context,
/// each stamped with the epoch that produced it.
pub struct Scene {
    root_pipeline_id: Option<PipelineId>,
    pipeline_map: FnvHashMap<u64, ScenePipeline>,
    display_list_map: FnvHashMap<u64, SceneDisplayList>,
    stacking_context_map: FnvHashMap<u64, SceneStackingContext>,
}

/// The first `n` of `keys`, as a set.
spec fn prefix_set(keys: Seq<u64>, n: int) -> Set<u64> {
    Set::new(|k: u64| exists|j: int| 0 <= j < n && keys[j] == k)
}

/// The handles in the display lists of `scene` under the first `n` of `keys`.
spec fn handles_under(scene: SceneView, keys: Seq<u64>, n: int) -> Set<DrawListId> {
    Set::new(
        |h: DrawListId|
            exists|j: int, i: int|
                0 <= j < n && #[trigger] scene.handle_at(
                    Site::Item { list: DisplayListId(keys[j]), index: i },
                ) == Some(h),
    )
}

/// Whether `site` is the background of `pipeline_id`, or lies in a display
/// list under one of the first `n` of `keys`, or among the first `i` entries
/// of the display list under the key after those.
spec fn visited(site: Site, pipeline_id: PipelineId, keys: Seq<u64>, n: int, i: int) -> bool {
    match site {
        Site::Background { pipeline } => pipeline == pipeline_id,
        Site::Item { list, index } => prefix_set(keys, n).contains(list.0) || (n < keys.len()
            && keys[n] == list.0 && index < i),
    }
}

/// Whether every handle in `handles` is live in the cache and none stands
/// twice.
fn live_and_distinct(handles: &Vec<DrawListId>, resource_cache: &ResourceCache) -> (ok: bool)
    ensures
        ok == (handles@.no_duplicates() && forall|k: int|
            0 <= k < handles@.len() ==> resource_cache@.contains_key(#[trigger] handles@[k])),
{
    let mut k: usize = 0;
    while k < handles.len()
        invariant
            k <= handles.len(),
            forall|a: int| 0 <= a < k ==> resource_cache@.contains_key(#[trigger] handles@[a]),
            forall|a: int, b: int| 0 <= a < b < k ==> handles@[a] != handles@[b],
        decreases handles.len() - k,
    {
        if !resource_cache.contains(handles[k]) {
            return false;
        }
        let mut a: usize = 0;
        while a < k
            invariant
                a <= k < handles.len(),
                forall|b: int| 0 <= b < a ==> handles@[b] != handles@[k as int],
            decreases k - a,
        {
            if handles[a] == handles[k] {
                return false;
            }
            a += 1;
        }
        k += 1;
    }
    true
}

/// Gives back every draw list that `items` refers to.
fn release_draw_lists(items: &Vec<SceneItem>, resource_cache: &mut ResourceCache)
    requires
        forall|i: int|
            0 <= i < items@.len() && (#[trigger] items@[i].draw_list()) is Some ==> old(
                resource_cache,
            )@.contains_key(items@[i].draw_list().unwrap()),
        distinct_handles(items@),
    ensures
        final(resource_cache)@ == old(resource_cache)@.remove_keys(
            handles_in(items@, items@.len() as int),
        ),
{
    let mut i: usize = 0;
    assert(resource_cache@ =~= old(resource_cache)@.remove_keys(handles_in(items@, 0)));
    while i < items.len()
        invariant
            i <= items.len(),
            resource_cache@ == old(resource_cache)@.remove_keys(handles_in(items@, i as int)),
            forall|i: int|
                0 <= i < items@.len() && (#[trigger] items@[i].draw_list()) is Some ==> old(
                    resource_cache,
                )@.contains_key(items@[i].draw_list().unwrap()),
            distinct_handles(items@),
        decreases items.len() - i,
    {
        match &items[i].specific {
            SpecificSceneItem::DrawList(draw_list_id) => {
                assert(items@[i as int].draw_list() == Some(*draw_list_id));
                resource_cache.remove_draw_list(*draw_list_id);
                assert(handles_in(items@, i + 1) =~= handles_in(items@, i as int).insert(
                    *draw_list_id,
                ));
                assert(resource_cache@ =~= old(resource_cache)@.remove_keys(
                    handles_in(items@, i + 1),
                ));
            },
            SpecificSceneItem::StackingContext(..) | SpecificSceneItem::Iframe(..) => {
                assert(items@[i as int].draw_list() is None);
                assert(handles_in(items@, i + 1) =~= handles_in(items@, i as int));
            },
        }
        i += 1;
    }
}

impl Scene {
    pub closed spec fn view(&self) -> SceneView {
        SceneView {
            root_pipeline_id: self.root_pipeline_id,
            pipelines: Map::new(
                |id: PipelineId| self.pipeline_map@.contains_key(id.0),
                |id: PipelineId| self.pipeline_map@[id.0],
            ),
            display_lists: Map::new(
                |id: DisplayListId| self.display_list_map@.contains_key(id.0),
                |id: DisplayListId| self.display_list_map@[id.0]@,
            ),
            stacking_contexts: Map::new(
                |id: StackingContextId| self.stacking_context_map@.contains_key(id.0),
                |id: StackingContextId| self.stacking_context_map@[id.0],
            ),
        }
    }

    /// An empty graph with no root pipeline.
    pub fn new() -> (scene: Scene)
        ensures
            scene@ == SceneView::empty(),
    {
        let scene = Scene {
            root_pipeline_id: None,
            pipeline_map: table::empty(),
            display_list_map: table::empty(),
            stacking_context_map: table::empty(),
        };
        assert(scene@.pipelines =~= Map::empty());
        assert(scene@.display_lists =~= Map::empty());
        assert(scene@.stacking_contexts =~= Map::empty());
        scene
    }

    /// Ingests a display list under `id`, in place of any that was there.
    ///
    /// The builder is finalized, and each of its entries becomes one entry
    /// of the display list, in order. A group of drawable items is
    /// handed to the resource cache, and the entry keeps the handle. Nothing
    /// is removed from the scene and no draw list is given back.
    pub fn add_display_list(
        &mut self,
        id: DisplayListId,
        pipeline_id: PipelineId,
        epoch: Epoch,
        display_list_builder: DisplayListBuilder,
        resource_cache: &mut ResourceCache,
    )
        ensures
            ingests(
                old(self)@,
                old(resource_cache)@,
                id,
                pipeline_id,
                epoch,
                display_list_builder@.finalized(),
                final(self)@,
                final(resource_cache)@,
            ),
    {
        let items = display_list_builder.finalize();
        let ghost source = items@;
        let mut entries: Vec<SceneItem> = Vec::new();
        for item in it: items
            invariant
                it.seq() == source,
                entries@.len() == it.index(),
                forall|i: int|
                    0 <= i < entries@.len() ==> realizes(
                        source[i]@,
                        #[trigger] entries@[i],
                        old(resource_cache)@,
                        resource_cache@,
                    ),
                distinct_handles(entries@),
                resource_cache@.dom() == old(resource_cache)@.dom().union(
                    handles_in(entries@, entries@.len() as int),
                ),
                forall|handle: DrawListId| #[trigger]
                    old(resource_cache)@.contains_key(handle) ==> resource_cache@[handle] == old(
                        resource_cache,
                    )@[handle],
        {
            let specific = match item.specific {
                SpecificDisplayListItem::DrawList(info) => {
                    let draw_list_id = resource_cache.add_draw_list(info.items);
                    SpecificSceneItem::DrawList(draw_list_id)
                },
                SpecificDisplayListItem::StackingContext(info) => {
                    SpecificSceneItem::StackingContext(info.id)
                },
                SpecificDisplayListItem::Iframe(info) => SpecificSceneItem::Iframe(info),
            };
            let ghost earlier = entries@;
            entries.push(SceneItem { stacking_level: item.stacking_level, specific });
            proof {
                let prior = handles_in(earlier, earlier.len() as int);
                let now = handles_in(entries@, entries@.len() as int);
                assert(forall|i: int| 0 <= i < earlier.len() ==> entries@[i] == earlier[i]);
                match entries@[earlier.len() as int].draw_list() {
                    Some(handle) => {
                        assert(now =~= prior.insert(handle));
                    },
                    None => {
                        assert(now =~= prior);
                    },
                }
                assert(resource_cache@.dom() =~= old(resource_cache)@.dom().union(now));
            }
        }
        let display_list = SceneDisplayList { pipeline_id, epoch, items: entries };
        table::insert(&mut self.display_list_map, id.0, display_list);
        assert(self@.display_lists =~= old(self)@.display_lists.insert(id, display_list@));
    }

    /// Stores a stacking context under `id`, in place of any that was there.
    /// Nothing else changes, and nothing that the context refers to is
    /// looked up.
    pub fn add_stacking_context(
        &mut self,
        id: StackingContextId,
        pipeline_id: PipelineId,
        epoch: Epoch,
        stacking_context: StackingContext,
    )
        ensures
            final(self)@ == (SceneView {
                stacking_contexts: old(self)@.stacking_contexts.insert(
                    id,
                    SceneStackingContext { pipeline_id, epoch, stacking_context },
                ),
                ..old(self)@
            }),
    {
        let stacking_context = SceneStackingContext { pipeline_id, epoch, stacking_context };
        table::insert(&mut self.stacking_context_map, id.0, stacking_context);
        assert(self@.stacking_contexts =~= old(self)@.stacking_contexts.insert(
            id,
            stacking_context,
        ));
    }

    /// The pipeline that is shown at the top, if one was named.
    pub fn root_pipeline_id(&self) -> (root: Option<PipelineId>)
        ensures
            root == self@.root_pipeline_id,
    {
        self.root_pipeline_id
    }

    /// The committed root of the pipeline `id`, if it has one.
    pub fn pipeline(&self, id: PipelineId) -> (found: Option<&ScenePipeline>)
        ensures
            found == (if self@.pipelines.contains_key(id) {
                Some(&self@.pipelines[id])
            } else {
                None
            }),
    {
        table::get(&self.pipeline_map, id.0)
    }

    /// The display list under `id`, if there is one.
    pub fn display_list(&self, id: DisplayListId) -> (found: Option<&SceneDisplayList>)
        ensures
            match found {
                Some(display_list) => self@.display_lists.contains_key(id) && display_list@
                    == self@.display_lists[id],
                None => !self@.display_lists.contains_key(id),
            },
    {
        table::get(&self.display_list_map, id.0)
    }

    /// The stacking context under `id`, if there is one.
    pub fn stacking_context(&self, id: StackingContextId) -> (found: Option<&SceneStackingContext>)
        ensures
            found == (if self@.stacking_contexts.contains_key(id) {
                Some(&self@.stacking_contexts[id])
            } else {
                None
            }),
    {
        table::get(&self.stacking_context_map, id.0)
    }

    /// The pipelines that have a committed root, each once, in no stated
    /// order.
    pub fn pipeline_ids(&self) -> (ids: Vec<PipelineId>)
        ensures
            ids@.no_duplicates(),
            forall|id: PipelineId| ids@.contains(id) <==> self@.pipelines.contains_key(id),
    {
        let keys = table::keys(&self.pipeline_map);
        let mut ids: Vec<PipelineId> = Vec::new();
        let mut n: usize = 0;
        while n < keys.len()
            invariant
                n <= keys.len(),
                ids@.len() == n,
                forall|i: int| 0 <= i < n ==> (#[trigger] ids@[i]).0 == keys@[i],
            decreases keys.len() - n,
        {
            ids.push(PipelineId(keys[n]));
            n += 1;
        }
        assert forall|id: PipelineId| ids@.contains(id) <==> self@.pipelines.contains_key(id) by {
            if self@.pipelines.contains_key(id) {
                assert(keys@.to_set().contains(id.0));
                let i = choose|i: int| 0 <= i < keys@.len() && keys@[i] == id.0;
                assert(ids@[i] == id);
            }
            if ids@.contains(id) {
                let i = choose|i: int| 0 <= i < ids@.len() && ids@[i] == id;
                assert(keys@.to_set().contains(keys@[i]));
            }
        }
        ids
    }

    /// The identifiers of the display lists in the scene, each once, in no
    /// stated order.
    pub fn display_list_ids(&self) -> (ids: Vec<DisplayListId>)
        ensures
            ids@.no_duplicates(),
            forall|id: DisplayListId| ids@.contains(id) <==> self@.display_lists.contains_key(id),
    {
        let keys = table::keys(&self.display_list_map);
        let mut ids: Vec<DisplayListId> = Vec::new();
        let mut n: usize = 0;
        while n < keys.len()
            invariant
                n <= keys.len(),
                ids@.len() == n,
                forall|i: int| 0 <= i < n ==> (#[trigger] ids@[i]).0 == keys@[i],
            decreases keys.len() - n,
        {
            ids.push(DisplayListId(keys[n]));
            n += 1;
        }
        assert forall|id: DisplayListId|
            ids@.contains(id) <==> self@.display_lists.contains_key(id) by {
            if self@.display_lists.contains_key(id) {
                assert(keys@.to_set().contains(id.0));
                let i = choose|i: int| 0 <= i < keys@.len() && keys@[i] == id.0;
                assert(ids@[i] == id);
            }
            if ids@.contains(id) {
                let i = choose|i: int| 0 <= i < ids@.len() && ids@[i] == id;
                assert(keys@.to_set().contains(keys@[i]));
            }
        }
        ids
    }

    /// The identifiers of the stacking contexts in the scene, each once, in
    /// no stated order.
    pub fn stacking_context_ids(&self) -> (ids: Vec<StackingContextId>)
        ensures
            ids@.no_duplicates(),
            forall|id: StackingContextId|
                ids@.contains(id) <==> self@.stacking_contexts.contains_key(id),
    {
        let keys = table::keys(&self.stacking_context_map);
        let mut ids: Vec<StackingContextId> = Vec::new();
        let mut n: usize = 0;
        while n < keys.len()
            invariant
                n <= keys.len(),
                ids@.len() == n,
                forall|i: int| 0 <= i < n ==> (#[trigger] ids@[i]).0 == keys@[i],
            decreases keys.len() - n,
        {
            ids.push(StackingContextId(keys[n]));
            n += 1;
        }
        assert forall|id: StackingContextId|
            ids@.contains(id) <==> self@.stacking_contexts.contains_key(id) by {
            if self@.stacking_contexts.contains_key(id) {
                assert(keys@.to_set().contains(id.0));
                let i = choose|i: int| 0 <= i < keys@.len() && keys@[i] == id.0;
                assert(ids@[i] == id);
            }
            if ids@.contains(id) {
                let i = choose|i: int| 0 <= i < ids@.len() && ids@[i] == id;
                assert(keys@.to_set().contains(keys@[i]));
            }
        }
        ids
    }

    /// The keys of the display lists that a commit of `pipeline_id` at
    /// `epoch` supersedes, each once.
    fn stale_display_list_keys(&self, pipeline_id: PipelineId, epoch: Epoch) -> (stale: Vec<u64>)
        ensures
            stale@.no_duplicates(),
            forall|k: u64|
                stale@.contains(k) <==> self@.stale_display_list(
                    DisplayListId(k),
                    pipeline_id,
                    epoch,
                ),
    {
        let all = table::keys(&self.display_list_map);
        let mut stale: Vec<u64> = Vec::new();
        let mut n: usize = 0;
        while n < all.len()
            invariant
                n <= all.len(),
                all@.no_duplicates(),
                all@.to_set() == self.display_list_map@.dom(),
                stale@.no_duplicates(),
                forall|i: int|
                    0 <= i < stale@.len() ==> prefix_set(all@, n as int).contains(#[trigger] stale@[i])
                        && self@.stale_display_list(DisplayListId(stale@[i]), pipeline_id, epoch),
                forall|j: int|
                    0 <= j < n && self@.stale_display_list(
                        DisplayListId(#[trigger] all@[j]),
                        pipeline_id,
                        epoch,
                    ) ==> stale@.contains(all@[j]),
            decreases all.len() - n,
        {
            let key = all[n];
            assert(all@.to_set().contains(key));
            let ghost before = stale@;
            match table::get(&self.display_list_map, key) {
                Some(display_list) => {
                    if display_list.pipeline_id == pipeline_id && display_list.epoch.precedes(epoch) {
                        assert(!before.contains(key));
                        stale.push(key);
                        assert(stale@[before.len() as int] == key);
                        assert(forall|j: int|
                            0 <= j < n && before.contains(#[trigger] all@[j]) ==> stale@.contains(
                                all@[j],
                            )) by {
                            assert(forall|i: int|
                                0 <= i < before.len() ==> stale@[i] == #[trigger] before[i]);
                        }
                    }
                },
                None => {},
            }
            n += 1;
        }
        assert(forall|k: u64|
            self@.stale_display_list(DisplayListId(k), pipeline_id, epoch) ==> stale@.contains(k)) by {
            assert(forall|k: u64|
                self.display_list_map@.dom().contains(k) ==> #[trigger] all@.to_set().contains(k));
        }
        stale
    }

    /// The keys of the stacking contexts that a commit of `pipeline_id` at
    /// `epoch` supersedes, each once.
    fn stale_stacking_context_keys(&self, pipeline_id: PipelineId, epoch: Epoch) -> (stale: Vec<
        u64,
    >)
        ensures
            stale@.no_duplicates(),
            forall|k: u64|
                stale@.contains(k) <==> self@.stale_stacking_context(
                    StackingContextId(k),
                    pipeline_id,
                    epoch,
                ),
    {
        let all = table::keys(&self.stacking_context_map);
        let mut stale: Vec<u64> = Vec::new();
        let mut n: usize = 0;
        while n < all.len()
            invariant
                n <= all.len(),
                all@.no_duplicates(),
                all@.to_set() == self.stacking_context_map@.dom(),
                stale@.no_duplicates(),
                forall|i: int|
                    0 <= i < stale@.len() ==> prefix_set(all@, n as int).contains(#[trigger] stale@[i])
                        && self@.stale_stacking_context(
                        StackingContextId(stale@[i]),
                        pipeline_id,
                        epoch,
                    ),
                forall|j: int|
                    0 <= j < n && self@.stale_stacking_context(
                        StackingContextId(#[trigger] all@[j]),
                        pipeline_id,
                        epoch,
                    ) ==> stale@.contains(all@[j]),
            decreases all.len() - n,
        {
            let key = all[n];
            assert(all@.to_set().contains(key));
            let ghost before = stale@;
            match table::get(&self.stacking_context_map, key) {
                Some(stacking_context) => {
                    if stacking_context.pipeline_id == pipeline_id
                        && stacking_context.epoch.precedes(epoch) {
                        assert(!before.contains(key));
                        stale.push(key);
                        assert(stale@[before.len() as int] == key);
                        assert(forall|j: int|
                            0 <= j < n && before.contains(#[trigger] all@[j]) ==> stale@.contains(
                                all@[j],
                            )) by {
                            assert(forall|i: int|
                                0 <= i < before.len() ==> stale@[i] == #[trigger] before[i]);
                        }
                    }
                },
                None => {},
            }
            n += 1;
        }
        assert(forall|k: u64|
            self@.stale_stacking_context(StackingContextId(k), pipeline_id, epoch)
                ==> stale@.contains(k)) by {
            assert(forall|k: u64|
                self.stacking_context_map@.dom().contains(k) ==> #[trigger] all@.to_set().contains(
                    k,
                ));
        }
        stale
    }

    /// The handles that a commit of `pipeline_id` at `epoch` gives back, one
    /// for each site, together with the sites they stand at.
    fn released_handles(&self, pipeline_id: PipelineId, epoch: Epoch) -> (out: (
        Vec<DrawListId>,
        Ghost<Seq<Site>>,
    ))
        ensures
            out.1@.len() == out.0@.len(),
            out.1@.no_duplicates(),
            forall|k: int|
                0 <= k < out.0@.len() ==> self@.handle_at(#[trigger] out.1@[k]) == Some(out.0@[k]),
            forall|site: Site|
                out.1@.contains(site) <==> self@.releases(site, pipeline_id, epoch),
    {
        let mut handles: Vec<DrawListId> = Vec::new();
        let ghost mut sites: Seq<Site> = Seq::empty();
        let ghost there = Site::Background { pipeline: pipeline_id };
        match table::get(&self.pipeline_map, pipeline_id.0) {
            Some(pipeline) => {
                match pipeline.background_draw_list {
                    Some(handle) => {
                        handles.push(handle);
                        proof {
                            sites = sites.push(there);
                            assert(sites[0] == there);
                        }
                    },
                    None => {},
                }
            },
            None => {},
        }
        let stale = self.stale_display_list_keys(pipeline_id, epoch);
        let mut n: usize = 0;
        assert(prefix_set(stale@, 0) =~= Set::empty());
        while n < stale.len()
            invariant
                n <= stale.len(),
                stale@.no_duplicates(),
                forall|k: u64|
                    stale@.contains(k) <==> self@.stale_display_list(
                        DisplayListId(k),
                        pipeline_id,
                        epoch,
                    ),
                sites.len() == handles@.len(),
                sites.no_duplicates(),
                forall|k: int|
                    0 <= k < handles@.len() ==> self@.handle_at(#[trigger] sites[k]) == Some(
                        handles@[k],
                    ),
                forall|site: Site|
                    sites.contains(site) <==> self@.handle_at(site) is Some && visited(
                        site,
                        pipeline_id,
                        stale@,
                        n as int,
                        0,
                    ),
            decreases stale.len() - n,
        {
            let key = stale[n];
            assert(stale@.contains(key));
            assert(!prefix_set(stale@, n as int).contains(key));
            let display_list = table::get(&self.display_list_map, key).unwrap();
            let mut i: usize = 0;
            while i < display_list.items.len()
                invariant
                    n < stale.len(),
                    key == stale@[n as int],
                    !prefix_set(stale@, n as int).contains(key),
                    self.display_list_map@.contains_key(key),
                    display_list == self.display_list_map@[key],
                    i <= display_list.items.len(),
                    sites.len() == handles@.len(),
                    sites.no_duplicates(),
                    forall|k: int|
                        0 <= k < handles@.len() ==> self@.handle_at(#[trigger] sites[k]) == Some(
                            handles@[k],
                        ),
                    forall|site: Site|
                        sites.contains(site) <==> self@.handle_at(site) is Some && visited(
                            site,
                            pipeline_id,
                            stale@,
                            n as int,
                            i as int,
                        ),
                decreases display_list.items.len() - i,
            {
                let ghost here = Site::Item { list: DisplayListId(key), index: i as int };
                let ghost earlier = sites;
                match &display_list.items[i].specific {
                    SpecificSceneItem::DrawList(handle) => {
                        handles.push(*handle);
                        proof {
                            assert(!earlier.contains(here));
                            sites = sites.push(here);
                            assert(self@.handle_at(here) == Some(*handle));
                            assert(sites[earlier.len() as int] == here);
                            assert(forall|k: int| 0 <= k < earlier.len() ==> sites[k] == earlier[k]);
                            assert forall|site: Site|
                                sites.contains(site) <==> earlier.contains(site) || site == here by {
                                if earlier.contains(site) {
                                    let k = choose|k: int| 0 <= k < earlier.len() && earlier[k] == site;
                                    assert(sites[k] == site);
                                }
                            }
                        }
                    },
                    SpecificSceneItem::StackingContext(..) | SpecificSceneItem::Iframe(..) => {
                        assert(self@.handle_at(here) is None);
                    },
                }
                i += 1;
            }
            proof {
                assert(prefix_set(stale@, n + 1) =~= prefix_set(stale@, n as int).insert(key));
                assert forall|site: Site|
                    sites.contains(site) <==> self@.handle_at(site) is Some && visited(
                        site,
                        pipeline_id,
                        stale@,
                        n + 1,
                        0,
                    ) by {
                    if self@.handle_at(site) is Some {
                        match site {
                            Site::Item { list, index } => {
                                if list.0 == key {
                                    assert(list == DisplayListId(key));
                                    assert(index < display_list.items@.len());
                                }
                            },
                            Site::Background { .. } => {},
                        }
                    }
                }
            }
            n += 1;
        }
        proof {
            assert forall|site: Site|
                sites.contains(site) <==> self@.releases(site, pipeline_id, epoch) by {
                match site {
                    Site::Item { list, index } => {
                        if prefix_set(stale@, n as int).contains(list.0) {
                            assert(stale@.contains(list.0));
                        }
                        if self@.stale_display_list(list, pipeline_id, epoch) {
                            assert(stale@.contains(list.0));
                            let j = choose|j: int| 0 <= j < stale@.len() && stale@[j] == list.0;
                            assert(prefix_set(stale@, n as int).contains(list.0));
                        }
                    },
                    Site::Background { .. } => {},
                }
            }
        }
        (handles, Ghost(sites))
    }

    /// Whether `set_root_stacking_context` may be called with these
    /// arguments.
    pub fn can_commit(
        &self,
        pipeline_id: PipelineId,
        epoch: Epoch,
        stacking_context_id: StackingContextId,
        background_color: ColorF,
        resource_cache: &ResourceCache,
    ) -> (ok: bool)
        ensures
            ok == self@.can_commit(
                pipeline_id,
                epoch,
                stacking_context_id,
                background_color,
                resource_cache@,
            ),
    {
        match table::get(&self.stacking_context_map, stacking_context_id.0) {
            Some(root) => {
                if background_color.is_visible() && root.pipeline_id == pipeline_id
                    && root.epoch.precedes(epoch) {
                    return false;
                }
            },
            None => {
                return false;
            },
        }
        let (handles, Ghost(sites)) = self.released_handles(pipeline_id, epoch);
        let ok = live_and_distinct(&handles, resource_cache);
        proof {
            let scene = self@;
            let live = resource_cache@;
            if ok {
                assert forall|site: Site| #[trigger]
                    scene.releases(site, pipeline_id, epoch) implies live.contains_key(
                    scene.handle_at(site).unwrap(),
                ) by {
                    assert(sites.contains(site));
                    let k = choose|k: int| 0 <= k < sites.len() && sites[k] == site;
                    assert(scene.handle_at(sites[k]) == Some(handles@[k]));
                }
                assert forall|a: Site, b: Site|
                    #![trigger scene.releases(a, pipeline_id, epoch), scene.releases(b, pipeline_id, epoch)]
                    scene.releases(a, pipeline_id, epoch) && scene.releases(b, pipeline_id, epoch)
                        && scene.handle_at(a) == scene.handle_at(b) implies a == b by {
                    assert(sites.contains(a) && sites.contains(b));
                    let ka = choose|k: int| 0 <= k < sites.len() && sites[k] == a;
                    let kb = choose|k: int| 0 <= k < sites.len() && sites[k] == b;
                    assert(scene.handle_at(sites[ka]) == Some(handles@[ka]));
                    assert(scene.handle_at(sites[kb]) == Some(handles@[kb]));
                }
            } else {
                if scene.can_release(pipeline_id, epoch, live) {
                    assert forall|k: int| 0 <= k < handles@.len() implies live.contains_key(
                        #[trigger] handles@[k],
                    ) by {
                        assert(sites.contains(sites[k]));
                        assert(scene.releases(sites[k], pipeline_id, epoch));
                    }
                    assert forall|ka: int, kb: int|
                        0 <= ka < handles@.len() && 0 <= kb < handles@.len() && ka != kb implies handles@[ka]
                        != handles@[kb] by {
                        assert(sites.contains(sites[ka]) && sites.contains(sites[kb]));
                        assert(scene.releases(sites[ka], pipeline_id, epoch));
                        assert(scene.releases(sites[kb], pipeline_id, epoch));
                    }
                    assert(false);
                }
            }
        }
        ok
    }

    /// Removes the display lists that a commit of `pipeline_id` at `epoch`
    /// supersedes, and gives back the draw lists that they refer to.
    fn sweep_display_lists(
        &mut self,
        pipeline_id: PipelineId,
        epoch: Epoch,
        resource_cache: &mut ResourceCache,
    )
        requires
            old(self)@.can_release(pipeline_id, epoch, old(resource_cache)@),
        ensures
            final(self)@ == (SceneView {
                display_lists: old(self)@.swept(pipeline_id, epoch).display_lists,
                ..old(self)@
            }),
            final(resource_cache)@ == old(resource_cache)@.remove_keys(
                old(self)@.swept_draw_lists(pipeline_id, epoch),
            ),
    {
        let stale = self.stale_display_list_keys(pipeline_id, epoch);
        let mut n: usize = 0;
        assert(self.display_list_map@ =~= old(self).display_list_map@.remove_keys(
            prefix_set(stale@, 0),
        ));
        assert(resource_cache@ =~= old(resource_cache)@.remove_keys(
            handles_under(old(self)@, stale@, 0),
        ));
        while n < stale.len()
            invariant
                n <= stale.len(),
                stale@.no_duplicates(),
                forall|k: u64|
                    stale@.contains(k) <==> old(self)@.stale_display_list(
                        DisplayListId(k),
                        pipeline_id,
                        epoch,
                    ),
                old(self)@.can_release(pipeline_id, epoch, old(resource_cache)@),
                self.root_pipeline_id == old(self).root_pipeline_id,
                self.pipeline_map == old(self).pipeline_map,
                self.stacking_context_map == old(self).stacking_context_map,
                self.display_list_map@ == old(self).display_list_map@.remove_keys(
                    prefix_set(stale@, n as int),
                ),
                resource_cache@ == old(resource_cache)@.remove_keys(
                    handles_under(old(self)@, stale@, n as int),
                ),
            decreases stale.len() - n,
        {
            let key = stale[n];
            let ghost list = DisplayListId(key);
            let ghost before = resource_cache@;
            assert(stale@.contains(key));
            assert(!prefix_set(stale@, n as int).contains(key));
            let display_list = table::remove(&mut self.display_list_map, key).unwrap();
            assert(display_list@ == old(self)@.display_lists[list]);
            assert(prefix_set(stale@, n + 1) =~= prefix_set(stale@, n as int).insert(key));
            assert(self.display_list_map@ =~= old(self).display_list_map@.remove_keys(
                prefix_set(stale@, n + 1),
            ));
            proof {
                let items = display_list.items@;
                assert forall|i: int| 0 <= i < items.len() && (#[trigger] items[i].draw_list()) is Some
                implies before.contains_key(items[i].draw_list().unwrap()) by {
                    let here = Site::Item { list, index: i };
                    assert(old(self)@.releases(here, pipeline_id, epoch));
                    let h = items[i].draw_list().unwrap();
                    if handles_under(old(self)@, stale@, n as int).contains(h) {
                        let (j, i2) = choose|j: int, i2: int|
                            0 <= j < n && #[trigger] old(self)@.handle_at(
                                Site::Item { list: DisplayListId(stale@[j]), index: i2 },
                            ) == Some(h);
                        let there = Site::Item { list: DisplayListId(stale@[j]), index: i2 };
                        assert(stale@.contains(stale@[j]));
                        assert(old(self)@.releases(there, pipeline_id, epoch));
                        assert(false);
                    }
                }
                assert forall|i: int, j: int|
                    0 <= i < j < items.len() && (#[trigger] items[i].draw_list()) is Some
                implies items[i].draw_list() != #[trigger] items[j].draw_list() by {
                    let a = Site::Item { list, index: i };
                    let b = Site::Item { list, index: j };
                    assert(old(self)@.releases(a, pipeline_id, epoch));
                    if items[i].draw_list() == items[j].draw_list() {
                        assert(old(self)@.releases(b, pipeline_id, epoch));
                        assert(false);
                    }
                }
            }
            release_draw_lists(&display_list.items, resource_cache);
            proof {
                let items = display_list.items@;
                let gone = handles_in(items, items.len() as int);
                let earlier = handles_under(old(self)@, stale@, n as int);
                let now = handles_under(old(self)@, stale@, n + 1);
                assert forall|h: DrawListId| now.contains(h) <==> earlier.contains(h) || gone.contains(
                    h,
                ) by {
                    if gone.contains(h) {
                        let i = choose|i: int|
                            0 <= i < items.len() && #[trigger] items[i].draw_list() == Some(h);
                        assert(old(self)@.handle_at(
                            Site::Item { list: DisplayListId(stale@[n as int]), index: i },
                        ) == Some(h));
                    }
                    if earlier.contains(h) {
                        let (j, i2) = choose|j: int, i2: int|
                            0 <= j < n && #[trigger] old(self)@.handle_at(
                                Site::Item { list: DisplayListId(stale@[j]), index: i2 },
                            ) == Some(h);
                        assert(0 <= j < n + 1);
                    }
                    if now.contains(h) {
                        let (j, i2) = choose|j: int, i2: int|
                            0 <= j < n + 1 && #[trigger] old(self)@.handle_at(
                                Site::Item { list: DisplayListId(stale@[j]), index: i2 },
                            ) == Some(h);
                        if j == n {
                            assert(items[i2].draw_list() == Some(h));
                        }
                    }
                }
                assert(resource_cache@ =~= old(resource_cache)@.remove_keys(now));
            }
            n += 1;
        }
        proof {
            let swept = old(self)@.swept(pipeline_id, epoch).display_lists;
            assert(self@.display_lists =~= swept) by {
                assert forall|id: DisplayListId| #[trigger]
                    self@.display_lists.contains_key(id) <==> swept.contains_key(id) by {
                    if prefix_set(stale@, n as int).contains(id.0) {
                        assert(stale@.contains(id.0));
                    }
                    if old(self)@.stale_display_list(id, pipeline_id, epoch) {
                        assert(stale@.contains(id.0));
                        let j = choose|j: int| 0 <= j < stale@.len() && stale@[j] == id.0;
                        assert(prefix_set(stale@, n as int).contains(id.0));
                    }
                }
            }
            let under = handles_under(old(self)@, stale@, n as int);
            let all = old(self)@.swept_draw_lists(pipeline_id, epoch);
            assert forall|h: DrawListId| under.contains(h) <==> all.contains(h) by {
                if under.contains(h) {
                    let (j, i2) = choose|j: int, i2: int|
                        0 <= j < n && #[trigger] old(self)@.handle_at(
                            Site::Item { list: DisplayListId(stale@[j]), index: i2 },
                        ) == Some(h);
                    let there = Site::Item { list: DisplayListId(stale@[j]), index: i2 };
                    assert(stale@.contains(stale@[j]));
                    assert(old(self)@.sweeps(there, pipeline_id, epoch));
                }
                if all.contains(h) {
                    let site = choose|site: Site|
                        old(self)@.sweeps(site, pipeline_id, epoch) && old(self)@.handle_at(site)
                            == Some(h);
                    match site {
                        Site::Item { list, index } => {
                            assert(stale@.contains(list.0));
                            let j = choose|j: int| 0 <= j < stale@.len() && stale@[j] == list.0;
                            assert(old(self)@.handle_at(
                                Site::Item { list: DisplayListId(stale@[j]), index },
                            ) == Some(h));
                        },
                        Site::Background { .. } => {},
                    }
                }
            }
            assert(under =~= all);
        }
    }

    /// Removes the stacking contexts that a commit of `pipeline_id` at
    /// `epoch` supersedes.
    fn sweep_stacking_contexts(&mut self, pipeline_id: PipelineId, epoch: Epoch)
        ensures
            final(self)@ == (SceneView {
                stacking_contexts: old(self)@.swept(pipeline_id, epoch).stacking_contexts,
                ..old(self)@
            }),
    {
        let stale = self.stale_stacking_context_keys(pipeline_id, epoch);
        let mut n: usize = 0;
        assert(self.stacking_context_map@ =~= old(self).stacking_context_map@.remove_keys(
            prefix_set(stale@, 0),
        ));
        while n < stale.len()
            invariant
                n <= stale.len(),
                self.root_pipeline_id == old(self).root_pipeline_id,
                self.pipeline_map == old(self).pipeline_map,
                self.display_list_map == old(self).display_list_map,
                self.stacking_context_map@ == old(self).stacking_context_map@.remove_keys(
                    prefix_set(stale@, n as int),
                ),
            decreases stale.len() - n,
        {
            table::remove(&mut self.stacking_context_map, stale[n]);
            assert(prefix_set(stale@, n + 1) =~= prefix_set(stale@, n as int).insert(
                stale@[n as int],
            ));
            assert(self.stacking_context_map@ =~= old(self).stacking_context_map@.remove_keys(
                prefix_set(stale@, n + 1),
            ));
            n += 1;
        }
        proof {
            let swept = old(self)@.swept(pipeline_id, epoch).stacking_contexts;
            assert(self@.stacking_contexts =~= swept) by {
                assert forall|id: StackingContextId| #[trigger]
                    self@.stacking_contexts.contains_key(id) <==> swept.contains_key(id) by {
                    if prefix_set(stale@, n as int).contains(id.0) {
                        assert(stale@.contains(id.0));
                    }
                    if old(self)@.stale_stacking_context(id, pipeline_id, epoch) {
                        assert(stale@.contains(id.0));
                        let j = choose|j: int| 0 <= j < stale@.len() && stale@[j] == id.0;
                        assert(prefix_set(stale@, n as int).contains(id.0));
                    }
                }
            }
        }
    }

    /// Names the pipeline that is shown at the top. Nothing is swept.
    pub fn set_root_pipeline_id(&mut self, pipeline_id: PipelineId)
        ensures
            final(self)@ == (SceneView { root_pipeline_id: Some(pipeline_id), ..old(self)@ }),
    {
        self.root_pipeline_id = Some(pipeline_id);
    }

    /// Commits `stacking_context_id` as the root of `pipeline_id` at `epoch`.
    ///
    /// First every display list and stacking context of the pipeline from a
    /// strictly older epoch is removed, and the draw lists of those display
    /// lists are given back. Then, if the colour is visible, a background is
    /// made over the overflow area of the root. Then the new root replaces
    /// any earlier one of the pipeline, and after that the background of
    /// the earlier one is given back.
    ///
    /// The caller sees to it that every handle to give back is live and
    /// stands at one place, that the root is in the scene, and that a root
    /// that needs a background is not itself superseded: `can_commit` tests
    /// this.
    pub fn set_root_stacking_context(
        &mut self,
        pipeline_id: PipelineId,
        epoch: Epoch,
        stacking_context_id: StackingContextId,
        background_color: ColorF,
        resource_cache: &mut ResourceCache,
    )
        requires
            old(self)@.can_commit(
                pipeline_id,
                epoch,
                stacking_context_id,
                background_color,
                old(resource_cache)@,
            ),
        ensures
            commits(
                old(self)@,
                old(resource_cache)@,
                pipeline_id,
                epoch,
                stacking_context_id,
                background_color,
                final(self)@,
                final(resource_cache)@,
            ),
    {
        self.sweep_display_lists(pipeline_id, epoch, resource_cache);
        let ghost half_swept = self@;
        self.sweep_stacking_contexts(pipeline_id, epoch);
        assert(half_swept.swept(pipeline_id, epoch).stacking_contexts =~= old(self)@.swept(
            pipeline_id,
            epoch,
        ).stacking_contexts);

        let background_draw_list = if background_color.is_visible() {
            assert(self@.stacking_contexts.contains_key(stacking_context_id));
            let overflow = table::get(
                &self.stacking_context_map,
                stacking_context_id.0,
            ).unwrap().stacking_context.overflow;
            assert(overflow == old(self)@.stacking_contexts[stacking_context_id].stacking_context.overflow)
                by {
                let swept = old(self)@.swept(pipeline_id, epoch).stacking_contexts;
                assert(self@.stacking_contexts == swept);
                assert(swept[stacking_context_id] == old(self)@.stacking_contexts[stacking_context_id]);
                assert(self@.stacking_contexts[stacking_context_id]
                    == self.stacking_context_map@[stacking_context_id.0]);
            }
            Some(resource_cache.add_draw_list(root_background(background_color, overflow)))
        } else {
            None
        };

        let new_pipeline = ScenePipeline {
            pipeline_id,
            epoch,
            background_draw_list,
            root_stacking_context_id: stacking_context_id,
        };

        if let Some(old_pipeline) = table::insert(&mut self.pipeline_map, pipeline_id.0, new_pipeline) {
            if let Some(background_draw_list) = old_pipeline.background_draw_list {
                proof {
                    let there = Site::Background { pipeline: pipeline_id };
                    assert(old(self)@.releases(there, pipeline_id, epoch));
                    if old(self)@.swept_draw_lists(pipeline_id, epoch).contains(background_draw_list) {
                        let site = choose|site: Site|
                            old(self)@.sweeps(site, pipeline_id, epoch) && old(self)@.handle_at(site)
                                == Some(background_draw_list);
                        assert(old(self)@.releases(site, pipeline_id, epoch));
                        assert(false);
                    }
                }
                resource_cache.remove_draw_list(background_draw_list);
            }
        }
        proof {
            let before = old(self)@;
            let swept = before.swept_draw_lists(pipeline_id, epoch);
            let released = before.released_draw_lists(pipeline_id, epoch);
            let there = Site::Background { pipeline: pipeline_id };
            assert forall|h: DrawListId|
                released.contains(h) <==> swept.contains(h) || before.handle_at(there) == Some(
                    h,
                ) by {
                if swept.contains(h) {
                    let site = choose|site: Site|
                        before.sweeps(site, pipeline_id, epoch) && before.handle_at(site) == Some(h);
                    assert(before.releases(site, pipeline_id, epoch));
                }
                if before.handle_at(there) == Some(h) {
                    assert(before.releases(there, pipeline_id, epoch));
                }
                if released.contains(h) {
                    let site = choose|site: Site|
                        before.releases(site, pipeline_id, epoch) && before.handle_at(site) == Some(
                            h,
                        );
                    if site != there {
                        assert(before.sweeps(site, pipeline_id, epoch));
                    }
                }
            }
            assert(self@.pipelines =~= before.pipelines.insert(pipeline_id, new_pipeline));
            let kept = old(resource_cache)@.remove_keys(released);
            match background_draw_list {
                Some(handle) => {
                    assert(resource_cache@ =~= kept.insert(handle, resource_cache@[handle]));
                },
                None => {
                    assert(resource_cache@ =~= kept);
                },
            }
        }
    }
}

} // verus!
