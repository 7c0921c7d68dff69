use std::ops::Range;
use vstd::prelude::*;
use vstd::std_specs::convert::FromSpecImpl;

verus! {

/// Byte span within a source buffer.
#[derive(Debug, Clone, Copy, PartialEq, Eq, Hash, Default)]
pub struct Span {
    start: usize,
    end: usize,
}

impl View for Span {
    /// The start and end offsets.
    type V = (usize, usize);

    closed spec fn view(&self) -> (usize, usize) {
        (self.start, self.end)
    }
}

impl Span {
    /// Start offset of the span.
    pub open spec fn start_spec(&self) -> usize {
        self@.0
    }

    /// End offset of the span.
    pub open spec fn end_spec(&self) -> usize {
        self@.1
    }

    /// Number of bytes covered: zero when the end does not lie past the start.
    pub open spec fn len_spec(&self) -> nat {
        if self.start_spec() < self.end_spec() {
            (self.end_spec() - self.start_spec()) as nat
        } else {
            0
        }
    }

    /// Creates a new span from a start and end offset.
    pub fn new(start: usize, end: usize) -> (span: Self)
        ensures
            span@ == (start, end),
    {
        Span { start, end }
    }

    /// Returns the start offset.
    pub fn start(&self) -> (start: usize)
        ensures
            start == self.start_spec(),
    {
        self.start
    }

    /// Returns the end offset.
    pub fn end(&self) -> (end: usize)
        ensures
            end == self.end_spec(),
    {
        self.end
    }

    /// Returns the underlying range.
    pub fn as_range(&self) -> (range: std::ops::Range<usize>)
        ensures
            range.start == self.start_spec(),
            range.end == self.end_spec(),
    {
        std::ops::Range { start: self.start, end: self.end }
    }

    /// Returns the span length.
    pub fn len(&self) -> (len: usize)
        ensures
            len == self.len_spec(),
    {
        if self.start < self.end {
            self.end - self.start
        } else {
            0
        }
    }

    /// Returns whether the span is empty.
    pub fn is_empty(&self) -> (empty: bool)
        ensures
            empty == (self.len_spec() == 0),
    {
        !(self.start < self.end)
    }
}

impl Span {
    /// The span with these offsets.
    pub closed spec fn of_offsets(start: usize, end: usize) -> Span {
        Span { start, end }
    }

    /// The span with these offsets has them.
    pub broadcast proof fn lemma_of_offsets(start: usize, end: usize)
        ensures
            #[trigger] Span::of_offsets(start, end)@ == (start, end),
    {
    }
}

impl From<Range<usize>> for Span {
    fn from(range: Range<usize>) -> (span: Self) {
        Span { start: range.start, end: range.end }
    }
}

impl FromSpecImpl<Range<usize>> for Span {
    open spec fn obeys_from_spec() -> bool {
        true
    }

    open spec fn from_spec(range: Range<usize>) -> Span {
        Span::of_offsets(range.start, range.end)
    }
}

impl From<Span> for Range<usize> {
    fn from(span: Span) -> (range: Self) {
        span.start..span.end
    }
}

impl FromSpecImpl<Span> for Range<usize> {
    open spec fn obeys_from_spec() -> bool {
        true
    }

    open spec fn from_spec(span: Span) -> Range<usize> {
        Range { start: span@.0, end: span@.1 }
    }
}

} // verus!
