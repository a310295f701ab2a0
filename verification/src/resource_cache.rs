use vstd::prelude::*;
use crate::display_item::DisplayItem;
use crate::ids::DrawListId;

verus! {

/// The draw lists that are live, each under the handle it was given.
pub type DrawLists = Map<DrawListId, Seq<DisplayItem>>;

/// Holds the draw lists that the scene refers to by handle.
///
/// A handle is live from the `add_draw_list` that returned it to the
/// `remove_draw_list` that takes it back. A handle that was taken back may
/// be given out again.
pub struct ResourceCache {
    draw_lists: Vec<Option<Vec<DisplayItem>>>,
}

/// The handles among the first `n` slots that hold a draw list.
spec fn live_below(slots: Seq<Option<Vec<DisplayItem>>>, n: int) -> Set<DrawListId> {
    Set::new(|id: DrawListId| id.0 < n && id.0 < slots.len() && slots[id.0 as int] is Some)
}

proof fn lemma_live_below(slots: Seq<Option<Vec<DisplayItem>>>, n: int)
    requires
        0 <= n <= slots.len() <= usize::MAX,
    ensures
        live_below(slots, n).finite(),
        live_below(slots, n).len() <= n,
    decreases n,
{
    if n == 0 {
        assert(live_below(slots, 0) =~= Set::empty());
    } else {
        lemma_live_below(slots, n - 1);
        lemma_live_step(slots, n - 1);
    }
}

proof fn lemma_live_step(slots: Seq<Option<Vec<DisplayItem>>>, n: int)
    requires
        0 <= n < slots.len() <= usize::MAX,
        live_below(slots, n).finite(),
    ensures
        live_below(slots, n + 1).finite(),
        live_below(slots, n + 1).len() == live_below(slots, n).len() + if slots[n] is Some {
            1int
        } else {
            0int
        },
{
    let here = DrawListId(n as usize);
    if slots[n] is Some {
        assert(live_below(slots, n + 1) =~= live_below(slots, n).insert(here));
    } else {
        assert(live_below(slots, n + 1) =~= live_below(slots, n));
    }
}

impl ResourceCache {
    /// The live draw lists.
    pub closed spec fn view(&self) -> DrawLists {
        Map::new(
            |id: DrawListId| id.0 < self.draw_lists@.len() && self.draw_lists@[id.0 as int] is Some,
            |id: DrawListId| self.draw_lists@[id.0 as int]->0@,
        )
    }

    /// A cache always holds finitely many draw lists.
    pub proof fn lemma_finite(&self)
        ensures
            self@.dom().finite(),
    {
        assert(self.draw_lists.len() == self.draw_lists@.len());
        lemma_live_below(self.draw_lists@, self.draw_lists@.len() as int);
        assert(self@.dom() =~= live_below(self.draw_lists@, self.draw_lists@.len() as int));
    }

    /// A cache with no draw list in it.
    pub fn new() -> (cache: ResourceCache)
        ensures
            cache@ == DrawLists::empty(),
    {
        let cache = ResourceCache { draw_lists: Vec::new() };
        assert(cache@ =~= DrawLists::empty());
        cache
    }

    /// Takes a draw list in and returns the handle it is live under from now
    /// on: the smallest one that was not live before.
    pub fn add_draw_list(&mut self, items: Vec<DisplayItem>) -> (id: DrawListId)
        ensures
            !old(self)@.contains_key(id),
            forall|smaller: DrawListId| smaller.0 < id.0 ==> old(self)@.contains_key(smaller),
            final(self)@ == old(self)@.insert(id, items@),
    {
        let n = self.draw_lists.len();
        let mut i: usize = 0;
        while i < n && self.draw_lists[i].is_some()
            invariant
                i <= n,
                n == self.draw_lists.len(),
                self.draw_lists == old(self).draw_lists,
                forall|j: int| 0 <= j < i ==> self.draw_lists@[j] is Some,
            decreases n - i,
        {
            i += 1;
        }
        let ghost items_view = items@;
        if i < n {
            self.draw_lists.set(i, Some(items));
        } else {
            self.draw_lists.push(Some(items));
        }
        assert(self@ =~= old(self)@.insert(DrawListId(i), items_view));
        DrawListId(i)
    }

    /// Takes the handle `id` back and drops its draw list.
    pub fn remove_draw_list(&mut self, id: DrawListId)
        requires
            old(self)@.contains_key(id),
        ensures
            final(self)@ == old(self)@.remove(id),
    {
        self.draw_lists.set(id.0, None);
        assert(self@ =~= old(self)@.remove(id));
    }

    /// Whether `id` is live.
    pub fn contains(&self, id: DrawListId) -> (live: bool)
        ensures
            live == self@.contains_key(id),
    {
        id.0 < self.draw_lists.len() && self.draw_lists[id.0].is_some()
    }

    /// The draw list that is live under `id`, if any.
    pub fn draw_list(&self, id: DrawListId) -> (found: Option<&Vec<DisplayItem>>)
        ensures
            match found {
                Some(items) => self@.contains_key(id) && items@ == self@[id],
                None => !self@.contains_key(id),
            },
    {
        if id.0 < self.draw_lists.len() {
            self.draw_lists[id.0].as_ref()
        } else {
            None
        }
    }

    /// The number of live draw lists.
    pub fn len(&self) -> (count: usize)
        ensures
            count == self@.dom().len(),
    {
        let n = self.draw_lists.len();
        let mut count: usize = 0;
        let mut i: usize = 0;
        proof {
            lemma_live_below(self.draw_lists@, 0);
        }
        while i < n
            invariant
                i <= n,
                n == self.draw_lists.len(),
                count == live_below(self.draw_lists@, i as int).len(),
                count <= i,
            decreases n - i,
        {
            proof {
                lemma_live_below(self.draw_lists@, i as int);
                lemma_live_step(self.draw_lists@, i as int);
            }
            if self.draw_lists[i].is_some() {
                count += 1;
            }
            i += 1;
        }
        assert(self@.dom() =~= live_below(self.draw_lists@, n as int));
        count
    }
}

} // verus!
