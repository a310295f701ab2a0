use vstd::prelude::*;

verus! {

/// Identifies one independent content source: a top-level document or a
/// document embedded in another.
#[derive(Clone, Copy, Debug, PartialEq, Eq, Structural, Hash)]
pub struct PipelineId(pub u64);

/// Version stamp of a pipeline's content. Later content carries a larger stamp.
#[derive(Clone, Copy, Debug, PartialEq, Eq, Structural, Hash)]
pub struct Epoch(pub u32);

/// Identifies a submitted display list. The caller assigns it and keeps it
/// unique over all pipelines.
#[derive(Clone, Copy, Debug, PartialEq, Eq, Structural, Hash)]
pub struct DisplayListId(pub u64);

/// Identifies a submitted stacking context. The caller assigns it and keeps
/// it unique over all pipelines.
#[derive(Clone, Copy, Debug, PartialEq, Eq, Structural, Hash)]
pub struct StackingContextId(pub u64);

/// Handle to a draw list held by the resource cache, which hands it out and
/// takes it back.
#[derive(Clone, Copy, Debug, PartialEq, Eq, Structural, Hash)]
pub struct DrawListId(pub usize);

impl Epoch {
    /// Whether this epoch is strictly older than `other`.
    pub fn precedes(self, other: Epoch) -> (older: bool)
        ensures
            older == (self.0 < other.0),
    {
        self.0 < other.0
    }
}

} // verus!
