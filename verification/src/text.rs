//! UTF-8 level helpers shared by the diagnostics and the UI description
//! front end: byte views of strings, sub-slicing at character boundaries,
//! and small string builders.
use vstd::prelude::*;
use vstd::utf8::*;
use vstd::string::StringExecFns;

verus! {

/// Facts about UTF-8 that every module reasoning over string bytes uses.
pub broadcast group group_utf8_facts {
    vstd::utf8::encode_utf8_valid_utf8,
    vstd::utf8::encode_utf8_decode_utf8,
    vstd::utf8::is_char_boundary_start_end_of_seq,
    vstd::utf8::is_char_boundary_iff_not_is_continuation_byte,
}

broadcast use group_utf8_facts;

/// The UTF-8 bytes of a character sequence.
pub open spec fn utf8(chars: Seq<char>) -> Seq<u8> {
    encode_utf8(chars)
}

/// Encoding distributes over concatenation.
pub proof fn lemma_utf8_concat(a: Seq<char>, b: Seq<char>)
    ensures
        utf8(a + b) == utf8(a) + utf8(b),
    decreases a.len(),
{
    if a.len() == 0 {
        assert(a + b =~= b);
        assert(utf8(a) =~= Seq::<u8>::empty());
        assert(utf8(a) + utf8(b) =~= utf8(b));
    } else {
        lemma_utf8_concat(a.drop_first(), b);
        assert((a + b).drop_first() =~= a.drop_first() + b);
        assert((a + b)[0] == a[0]);
        assert(utf8(a + b) =~= encode_scalar(a[0] as u32) + utf8(a.drop_first() + b));
        assert(utf8(a) =~= encode_scalar(a[0] as u32) + utf8(a.drop_first()));
    }
}

/// A character boundary of a valid byte sequence stays one in any suffix
/// that starts at an earlier boundary.
pub proof fn lemma_boundary_in_suffix(b: Seq<u8>, i: int, j: int)
    requires
        valid_utf8(b),
        0 <= i <= j <= b.len(),
        is_char_boundary(b, i),
        is_char_boundary(b, j),
    ensures
        valid_utf8(b.subrange(i, b.len() as int)),
        is_char_boundary(b.subrange(i, b.len() as int), j - i),
{
    vstd::utf8::valid_utf8_split(b, i);
    let t = b.subrange(i, b.len() as int);
    if j < b.len() {
        assert(t[j - i] == b[j]);
        vstd::utf8::is_char_boundary_iff_not_is_continuation_byte(b, j);
        vstd::utf8::is_char_boundary_iff_not_is_continuation_byte(t, j - i);
    } else {
        assert(t.len() == j - i);
        vstd::utf8::is_char_boundary_start_end_of_seq(t);
    }
}

/// Byte length of the UTF-8 encoding that starts with leading byte `x`.
pub open spec fn char_width(x: u8) -> int {
    if x < 0x80u8 {
        1
    } else if x < 0xE0u8 {
        2
    } else if x < 0xF0u8 {
        3
    } else {
        4
    }
}

/// In valid UTF-8, the character starting at a boundary `i` occupies
/// `char_width(b[i])` bytes, all but the first of them continuation bytes,
/// and the next character starts at a boundary again.
pub proof fn lemma_next_boundary(b: Seq<u8>, i: int)
    requires
        valid_utf8(b),
        0 <= i < b.len(),
        is_char_boundary(b, i),
    ensures
        i + char_width(b[i]) <= b.len(),
        is_char_boundary(b, i + char_width(b[i])),
        forall|k: int| i < k < i + char_width(b[i]) ==> is_continuation_byte(#[trigger] b[k]),
{
    vstd::utf8::valid_utf8_split(b, i);
    let t = b.subrange(i, b.len() as int);
    vstd::utf8::is_char_boundary_iff_not_is_continuation_byte(b, i);
    assert(t[0] == b[i]);
    assert(valid_first_scalar(t));
    let w = length_of_first_scalar(t);
    assert(w == char_width(b[i]));
    let rest = pop_first_scalar(t);
    assert(valid_utf8(rest));
    assert forall|k: int| i < k < i + char_width(b[i]) implies is_continuation_byte(#[trigger] b[k]) by {
        assert(b[k] == t[k - i]);
    }
    if i + w == b.len() {
        vstd::utf8::is_char_boundary_start_end_of_seq(b);
    } else {
        assert(rest.len() > 0);
        assert(valid_first_scalar(rest));
        assert(rest[0] == b[i + w]);
        vstd::utf8::is_char_boundary_iff_not_is_continuation_byte(b, i + w);
    }
}

/// An ASCII character is encoded as its own code in one byte.
pub proof fn lemma_utf8_ascii_char(c: char)
    requires
        (c as u32) < 0x80,
    ensures
        utf8(seq![c]) == seq![c as u8],
{
    let s = seq![c];
    assert(vstd::utf8::is_ascii_chars(s));
    vstd::utf8::is_ascii_chars_encode_utf8(s);
    assert(utf8(s) =~= seq![c as u8]);
}

/// Returns `char_width` of a leading byte.
pub fn width_of(x: u8) -> (w: usize)
    ensures
        w == char_width(x),
{
    if x < 0x80u8 {
        1
    } else if x < 0xE0u8 {
        2
    } else if x < 0xF0u8 {
        3
    } else {
        4
    }
}

/// The bytes of a string slice, as seen by the specifications.
pub open spec fn bytes_of(s: &str) -> Seq<u8> {
    utf8(s@)
}

/// Returns the part of `s` between two character boundaries.
pub fn substring(s: &str, start: usize, end: usize) -> (part: &str)
    requires
        start <= end <= bytes_of(s).len(),
        is_char_boundary(bytes_of(s), start as int),
        is_char_boundary(bytes_of(s), end as int),
    ensures
        bytes_of(part) == bytes_of(s).subrange(start as int, end as int),
        part@ == decode_utf8(bytes_of(s).subrange(start as int, end as int)),
{
    proof {
        lemma_boundary_in_suffix(bytes_of(s), start as int, end as int);
    }
    let (_, tail) = s.split_at(start);
    assert(bytes_of(tail) =~= bytes_of(s).subrange(start as int, bytes_of(s).len() as int));
    let (part, _) = tail.split_at(end - start);
    assert(bytes_of(part) =~= bytes_of(s).subrange(start as int, end as int));
    part
}

/// Appends one character to a string (`String::push`).
#[verifier::external_body]
pub fn push_char(s: &mut String, c: char)
    ensures
        final(s)@ == old(s)@.push(c),
{
    s.push(c);
}

/// Appends a string slice to a string.
pub fn push_str(s: &mut String, t: &str)
    ensures
        final(s)@ == old(s)@ + t@,
{
    s.append(t);
}

/// Returns an owned copy of a string slice.
pub fn to_owned_string(s: &str) -> (owned: String)
    ensures
        owned@ == s@,
{
    s.to_owned()
}

/// The decimal digit character for a value below ten.
pub open spec fn digit_char(d: nat) -> char {
    if d == 0 { '0' } else if d == 1 { '1' } else if d == 2 { '2' } else if d == 3 { '3' }
    else if d == 4 { '4' } else if d == 5 { '5' } else if d == 6 { '6' } else if d == 7 { '7' }
    else if d == 8 { '8' } else { '9' }
}

/// The decimal rendering of a natural number, as `Display` prints it.
pub open spec fn decimal(n: nat) -> Seq<char>
    decreases n,
{
    if n < 10 {
        seq![digit_char(n)]
    } else {
        decimal(n / 10).push(digit_char(n % 10))
    }
}

fn digit(d: usize) -> (c: char)
    requires
        d < 10,
    ensures
        c == digit_char(d as nat),
{
    if d == 0 { '0' } else if d == 1 { '1' } else if d == 2 { '2' } else if d == 3 { '3' }
    else if d == 4 { '4' } else if d == 5 { '5' } else if d == 6 { '6' } else if d == 7 { '7' }
    else if d == 8 { '8' } else { '9' }
}

/// Appends the decimal rendering of `n`.
pub fn push_decimal(out: &mut String, n: usize)
    ensures
        final(out)@ == old(out)@ + decimal(n as nat),
    decreases n,
{
    if n >= 10 {
        push_decimal(out, n / 10);
    }
    push_char(out, digit(n % 10));
    proof {
        if n >= 10 {
            assert(decimal(n as nat) == decimal((n / 10) as nat).push(digit_char((n % 10) as nat)));
        }
    }
    assert(final(out)@ =~= old(out)@ + decimal(n as nat));
}

} // verus!
