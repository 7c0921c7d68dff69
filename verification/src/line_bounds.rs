use crate::text::{bytes_of, lemma_next_boundary};
use vstd::prelude::*;
use vstd::utf8::{is_char_boundary, valid_utf8};

verus! {

/// The offset where the line holding `index` starts: just past the last
/// newline byte before `index`, or zero.
pub open spec fn line_start_of(b: Seq<u8>, index: int) -> int
    decreases index,
{
    if index <= 0 {
        0
    } else if b[index - 1] == 10u8 {
        index
    } else {
        line_start_of(b, index - 1)
    }
}

/// The offset where the line holding `index` ends: the first newline byte at
/// or after `index`, or the end of the buffer.
pub open spec fn line_end_of(b: Seq<u8>, index: int) -> int
    decreases b.len() - index,
{
    if index >= b.len() {
        b.len() as int
    } else if b[index] == 10u8 {
        index
    } else {
        line_end_of(b, index + 1)
    }
}

/// Number of newline bytes in a byte sequence.
pub open spec fn newline_count(s: Seq<u8>) -> nat
    decreases s.len(),
{
    if s.len() == 0 {
        0
    } else {
        newline_count(s.drop_last()) + if s.last() == 10u8 { 1nat } else { 0nat }
    }
}

/// The start of a line lies at or before the index, right after a newline
/// unless it is the start of the buffer.
pub proof fn lemma_line_start_bounds(b: Seq<u8>, index: int)
    requires
        0 <= index <= b.len(),
    ensures
        0 <= line_start_of(b, index) <= index,
        line_start_of(b, index) > 0 ==> b[line_start_of(b, index) - 1] == 10u8,
    decreases index,
{
    if index > 0 && b[index - 1] != 10u8 {
        lemma_line_start_bounds(b, index - 1);
    }
}

/// The end of a line lies at or after the index, on a newline unless it is
/// the end of the buffer.
pub proof fn lemma_line_end_bounds(b: Seq<u8>, index: int)
    requires
        0 <= index <= b.len(),
    ensures
        index <= line_end_of(b, index) <= b.len(),
        line_end_of(b, index) < b.len() ==> b[line_end_of(b, index)] == 10u8,
    decreases b.len() - index,
{
    if index < b.len() && b[index] != 10u8 {
        lemma_line_end_bounds(b, index + 1);
    }
}

/// Both ends of a line are character boundaries of valid UTF-8.
pub proof fn lemma_line_bounds_are_boundaries(b: Seq<u8>, index: int)
    requires
        valid_utf8(b),
        0 <= index <= b.len(),
    ensures
        is_char_boundary(b, line_start_of(b, index)),
        is_char_boundary(b, line_end_of(b, index)),
{
    lemma_line_start_bounds(b, index);
    lemma_line_end_bounds(b, index);
    vstd::utf8::is_char_boundary_start_end_of_seq(b);
    let ls = line_start_of(b, index);
    let le = line_end_of(b, index);
    if ls > 0 {
        vstd::utf8::is_char_boundary_iff_not_is_continuation_byte(b, ls - 1);
        lemma_next_boundary(b, ls - 1);
    }
    if le < b.len() {
        vstd::utf8::is_char_boundary_iff_not_is_continuation_byte(b, le);
    }
}

proof fn lemma_newline_count_bound(s: Seq<u8>)
    ensures
        newline_count(s) <= s.len(),
    decreases s.len(),
{
    if s.len() > 0 {
        lemma_newline_count_bound(s.drop_last());
    }
}

/// Line metadata for a byte index within a source buffer.
#[derive(Debug, Clone, PartialEq, Eq)]
pub struct LineBounds {
    pub line_number: usize,
    pub line_start: usize,
    pub line_end: usize,
}

impl LineBounds {
    /// Creates line metadata for the line containing `index`.
    pub fn new(source: &str, index: usize) -> (bounds: Self)
        requires
            index <= bytes_of(source).len(),
            is_char_boundary(bytes_of(source), index as int),
            bytes_of(source).len() < usize::MAX,
        ensures
            bounds.line_start == line_start_of(bytes_of(source), index as int),
            bounds.line_end == line_end_of(bytes_of(source), index as int),
            bounds.line_number == newline_count(
                bytes_of(source).subrange(0, bounds.line_start as int),
            ) + 1,
    {
        let bytes = source.as_bytes();
        let ghost b = bytes_of(source);
        assert(bytes@ == b);
        let mut line_start = index;
        while line_start > 0 && bytes[line_start - 1] != 10u8
            invariant
                line_start <= index <= b.len(),
                bytes@ == b,
                line_start_of(b, line_start as int) == line_start_of(b, index as int),
            decreases line_start,
        {
            line_start = line_start - 1;
        }
        let mut line_end = index;
        while line_end < bytes.len() && bytes[line_end] != 10u8
            invariant
                index <= line_end <= b.len(),
                bytes@ == b,
                line_end_of(b, line_end as int) == line_end_of(b, index as int),
            decreases b.len() - line_end,
        {
            line_end = line_end + 1;
        }
        let mut count: usize = 0;
        let mut k: usize = 0;
        while k < line_start
            invariant
                k <= line_start <= b.len(),
                bytes@ == b,
                count == newline_count(b.subrange(0, k as int)),
                count <= k,
            decreases line_start - k,
        {
            proof {
                assert(b.subrange(0, k + 1).drop_last() =~= b.subrange(0, k as int));
            }
            if bytes[k] == 10u8 {
                count = count + 1;
            }
            k = k + 1;
        }
        LineBounds { line_number: count + 1, line_start, line_end }
    }
}

} // verus!
