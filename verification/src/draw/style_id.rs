use vstd::prelude::*;

verus! {

/// Identifier for a style in the draw command stream.
#[derive(Debug, Clone, Copy, PartialEq, Eq, Hash)]
pub struct StyleId(usize);

impl View for StyleId {
    /// The index of the style in its draw list.
    type V = usize;

    closed spec fn view(&self) -> usize {
        self.0
    }
}

impl StyleId {
    /// Creates a new style identifier.
    pub fn new(index: usize) -> (id: Self)
        ensures
            id@ == index,
    {
        StyleId(index)
    }

    /// Returns the raw style index.
    pub fn index(self) -> (index: usize)
        ensures
            index == self@,
    {
        self.0
    }
}

} // verus!
