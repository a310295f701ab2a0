use vstd::prelude::*;
use crate::display_item::{
    DisplayItem, DisplayListItem, DisplayListItemView, DrawListInfo, IframeInfo,
    SpecificDisplayListItem, StackingContextInfo, StackingLevel, SubmittedView,
};
use crate::ids::StackingContextId;

verus! {

/// What a `DisplayListBuilder` holds: the entries that are closed, and the
/// group of drawable items that is still open, with its stacking level.
pub ghost struct BuilderView {
    pub closed: Seq<DisplayListItemView>,
    pub open: Seq<DisplayItem>,
    pub open_level: StackingLevel,
}

impl BuilderView {
    /// The builder that nothing was pushed to: no entry is closed, and the
    /// open group is empty and stands at the first stacking level.
    pub open spec fn empty() -> BuilderView {
        BuilderView {
            closed: Seq::empty(),
            open: Seq::empty(),
            open_level: StackingLevel::BackgroundAndBorders,
        }
    }

    /// The builder with its open group, if there is anything in it, closed
    /// into an entry.
    pub open spec fn closed_off(self) -> BuilderView {
        if self.open.len() > 0 {
            BuilderView {
                closed: self.closed.push(
                    DisplayListItemView {
                        stacking_level: self.open_level,
                        specific: SubmittedView::DrawList(self.open),
                    },
                ),
                open: Seq::empty(),
                open_level: self.open_level,
            }
        } else {
            self
        }
    }

    /// The entries of the finished display list, in the order in which they
    /// were pushed.
    pub open spec fn finalized(self) -> Seq<DisplayListItemView> {
        self.closed_off().closed
    }

    /// The builder after a drawable item is pushed: it joins the open group
    /// where that group has its stacking level, and opens a new group after
    /// closing the open one where it has not.
    pub open spec fn with_item(self, level: StackingLevel, item: DisplayItem) -> BuilderView {
        let base = if level == self.open_level {
            self
        } else {
            self.closed_off()
        };
        BuilderView { closed: base.closed, open: base.open.push(item), open_level: level }
    }

    /// The builder after an entry that is no drawable item is pushed: the
    /// open group is closed, and the entry follows it.
    pub open spec fn with_entry(self, entry: DisplayListItemView) -> BuilderView {
        BuilderView { closed: self.closed_off().closed.push(entry), ..self.closed_off() }
    }
}

/// Collects the entries of a display list. Drawable items that follow one
/// another at one stacking level form a group; the builder keeps the last
/// group open until something else is pushed or the list is finished.
#[derive(Clone, Debug)]
pub struct DisplayListBuilder {
    items: Vec<DisplayListItem>,
    open: Vec<DisplayItem>,
    open_level: StackingLevel,
}

impl DisplayListBuilder {
    pub closed spec fn view(&self) -> BuilderView {
        BuilderView {
            closed: Seq::new(self.items@.len(), |i: int| self.items@[i]@),
            open: self.open@,
            open_level: self.open_level,
        }
    }

    /// A builder that nothing was pushed to.
    pub fn new() -> (builder: DisplayListBuilder)
        ensures
            builder@ == BuilderView::empty(),
    {
        let builder = DisplayListBuilder {
            items: Vec::new(),
            open: Vec::new(),
            open_level: StackingLevel::BackgroundAndBorders,
        };
        assert(builder@.closed =~= Seq::empty());
        builder
    }

    /// Closes the open group, if there is anything in it.
    fn close_group(&mut self)
        ensures
            final(self)@ == old(self)@.closed_off(),
    {
        if self.open.len() > 0 {
            let mut group: Vec<DisplayItem> = Vec::new();
            core::mem::swap(&mut self.open, &mut group);
            self.items.push(
                DisplayListItem {
                    stacking_level: self.open_level,
                    specific: SpecificDisplayListItem::DrawList(DrawListInfo { items: group }),
                },
            );
            assert(self@.closed =~= old(self)@.closed_off().closed);
        }
    }

    /// Pushes a drawable item at the given stacking level.
    pub fn push_item(&mut self, level: StackingLevel, item: DisplayItem)
        ensures
            final(self)@ == old(self)@.with_item(level, item),
    {
        if level != self.open_level {
            self.close_group();
        }
        self.open.push(item);
        self.open_level = level;
    }

    /// Pushes a stacking context, by its identifier.
    pub fn push_stacking_context(&mut self, level: StackingLevel, id: StackingContextId)
        ensures
            final(self)@ == old(self)@.with_entry(
                DisplayListItemView {
                    stacking_level: level,
                    specific: SubmittedView::StackingContext(id),
                },
            ),
    {
        self.close_group();
        self.items.push(
            DisplayListItem {
                stacking_level: level,
                specific: SpecificDisplayListItem::StackingContext(StackingContextInfo { id }),
            },
        );
        assert(self@.closed =~= old(self)@.closed_off().closed.push(
            DisplayListItemView {
                stacking_level: level,
                specific: SubmittedView::StackingContext(id),
            },
        ));
    }

    /// Pushes a link to the content of another pipeline.
    pub fn push_iframe(&mut self, level: StackingLevel, info: IframeInfo)
        ensures
            final(self)@ == old(self)@.with_entry(
                DisplayListItemView { stacking_level: level, specific: SubmittedView::Iframe(info) },
            ),
    {
        self.close_group();
        self.items.push(
            DisplayListItem {
                stacking_level: level,
                specific: SpecificDisplayListItem::Iframe(Box::new(info)),
            },
        );
        assert(self@.closed =~= old(self)@.closed_off().closed.push(
            DisplayListItemView { stacking_level: level, specific: SubmittedView::Iframe(info) },
        ));
    }

    /// Closes the open group and hands the entries out.
    pub fn finalize(self) -> (items: Vec<DisplayListItem>)
        ensures
            items@.len() == self@.finalized().len(),
            forall|i: int| 0 <= i < items@.len() ==> (#[trigger] items@[i])@ == self@.finalized()[i],
    {
        let mut builder = self;
        builder.close_group();
        builder.items
    }
}

} // verus!
