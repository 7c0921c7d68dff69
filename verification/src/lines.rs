//! Character-level string helpers: splitting into lines, joining, and
//! searching, with the meaning that `str::lines`, `join` and `contains` have.
use crate::text::push_char;
use vstd::prelude::*;
use vstd::string::StrSliceExecFns;

verus! {

/// The texts of a sequence of strings.
pub open spec fn texts(strings: Seq<String>) -> Seq<Seq<char>> {
    strings.map_values(|s: String| s@)
}

/// The characters of a string slice, in order.
pub fn chars_of(s: &str) -> (chars: Vec<char>)
    ensures
        chars@ == s@,
{
    let n = s.unicode_len();
    let mut chars: Vec<char> = Vec::new();
    let mut i: usize = 0;
    while i < n
        invariant
            n == s@.len(),
            i <= n,
            chars@ == s@.subrange(0, i as int),
        decreases n - i,
    {
        chars.push(s.get_char(i));
        i = i + 1;
        assert(chars@ =~= s@.subrange(0, i as int));
    }
    assert(chars@ =~= s@);
    chars
}

/// A string holding `chars[start..end]`.
pub fn string_of(chars: &Vec<char>, start: usize, end: usize) -> (s: String)
    requires
        start <= end <= chars@.len(),
    ensures
        s@ == chars@.subrange(start as int, end as int),
{
    let mut s = String::new();
    let mut i = start;
    while i < end
        invariant
            start <= i <= end <= chars@.len(),
            s@ == chars@.subrange(start as int, i as int),
        decreases end - i,
    {
        push_char(&mut s, chars[i]);
        i = i + 1;
        assert(s@ =~= chars@.subrange(start as int, i as int));
    }
    s
}

/// The position of the first `'\n'` at or after `from`, or the length.
pub open spec fn next_newline(s: Seq<char>, from: int) -> int
    decreases s.len() - from,
{
    if from < 0 || from >= s.len() {
        s.len() as int
    } else if s[from] == '\n' {
        from
    } else {
        next_newline(s, from + 1)
    }
}

proof fn lemma_next_newline(s: Seq<char>, from: int)
    requires
        0 <= from <= s.len(),
    ensures
        from <= next_newline(s, from) <= s.len(),
        next_newline(s, from) < s.len() ==> s[next_newline(s, from)] == '\n',
        forall|k: int| from <= k < next_newline(s, from) ==> s[k] != '\n',
    decreases s.len() - from,
{
    if from < s.len() && s[from] != '\n' {
        lemma_next_newline(s, from + 1);
    }
}

/// The lines of `s` from position `from`, as `str::lines` gives them: split
/// at `'\n'`, a `'\r'` right before the `'\n'` dropped, and no empty last line
/// after a final line break.
pub open spec fn lines_from(s: Seq<char>, from: int) -> Seq<Seq<char>>
    decreases s.len() - from,
{
    if from < 0 || from >= s.len() {
        Seq::empty()
    } else {
        let end = next_newline(s, from);
        if from <= end < s.len() {
            let line = s.subrange(from, end);
            let line = if line.len() > 0 && line.last() == '\r' {
                line.drop_last()
            } else {
                line
            };
            seq![line] + lines_from(s, end + 1)
        } else {
            seq![s.subrange(from, s.len() as int)]
        }
    }
}

/// The lines of `s` (`str::lines`).
pub open spec fn lines_of(s: Seq<char>) -> Seq<Seq<char>> {
    lines_from(s, 0)
}

/// Splits a string into its lines (`str::lines`).
pub fn split_lines(s: &str) -> (lines: Vec<String>)
    ensures
        lines@.map_values(|l: String| l@) == lines_of(s@),
{
    let chars = chars_of(s);
    let n = chars.len();
    let mut lines: Vec<String> = Vec::new();
    let mut from: usize = 0;
    while from < n
        invariant
            chars@ == s@,
            n == s@.len(),
            from <= n,
            lines@.map_values(|l: String| l@) + lines_from(s@, from as int) == lines_of(s@),
        decreases n - from,
    {
        let mut end = from;
        while end < n && chars[end] != '\n'
            invariant
                chars@ == s@,
                n == s@.len(),
                from <= end <= n,
                next_newline(s@, end as int) == next_newline(s@, from as int),
            decreases n - end,
        {
            end = end + 1;
        }
        let ghost before = lines@.map_values(|l: String| l@);
        if end < n {
            let line_end = if end > from && chars[end - 1] == '\r' { end - 1 } else { end };
            let line = string_of(&chars, from, line_end);
            lines.push(line);
            proof {
                let piece = s@.subrange(from as int, end as int);
                if end > from && chars@[end - 1] == '\r' {
                    assert(piece.drop_last() =~= s@.subrange(from as int, line_end as int));
                } else {
                    assert(piece =~= s@.subrange(from as int, line_end as int));
                }
                assert(lines@.map_values(|l: String| l@) =~= before.push(line@));
                assert(before + lines_from(s@, from as int) =~= lines@.map_values(|l: String| l@) + lines_from(s@, end + 1));
            }
            from = end + 1;
        } else {
            let line = string_of(&chars, from, n);
            lines.push(line);
            proof {
                assert(lines@.map_values(|l: String| l@) =~= before.push(line@));
                assert(lines_from(s@, n as int) =~= Seq::<Seq<char>>::empty());
                assert(before + lines_from(s@, from as int) =~= lines@.map_values(|l: String| l@) + lines_from(s@, n as int));
            }
            from = n;
        }
    }
    assert(lines_from(s@, from as int) =~= Seq::<Seq<char>>::empty());
    assert(lines@.map_values(|l: String| l@) + Seq::<Seq<char>>::empty() =~= lines@.map_values(|l: String| l@));
    lines
}

/// The pieces joined, with `sep` between each two (`join`).
pub open spec fn joined(pieces: Seq<Seq<char>>, sep: Seq<char>) -> Seq<char>
    decreases pieces.len(),
{
    if pieces.len() == 0 {
        Seq::empty()
    } else if pieces.len() == 1 {
        pieces[0]
    } else {
        joined(pieces.drop_last(), sep) + sep + pieces.last()
    }
}

/// Joins strings with a separator.
pub fn join_strings(pieces: &Vec<String>, sep: &str) -> (s: String)
    ensures
        s@ == joined(pieces@.map_values(|p: String| p@), sep@),
{
    let ghost views = pieces@.map_values(|p: String| p@);
    let mut s = String::new();
    let mut i: usize = 0;
    while i < pieces.len()
        invariant
            views == pieces@.map_values(|p: String| p@),
            i <= pieces@.len(),
            s@ == joined(views.subrange(0, i as int), sep@),
        decreases pieces@.len() - i,
    {
        if i > 0 {
            crate::text::push_str(&mut s, sep);
        }
        crate::text::push_str(&mut s, pieces[i].as_str());
        proof {
            let next = views.subrange(0, i + 1);
            assert(next.drop_last() =~= views.subrange(0, i as int));
            assert(next.last() == views[i as int]);
            if i == 0 {
                assert(s@ =~= views[0]);
            }
        }
        i = i + 1;
    }
    assert(views.subrange(0, i as int) =~= views);
    s
}

/// `c` occurs in `s`.
pub open spec fn has_char(s: Seq<char>, c: char) -> bool {
    exists|k: int| 0 <= k < s.len() && s[k] == c
}

/// Whether `c` occurs in a string.
pub fn contains_char(s: &str, c: char) -> (found: bool)
    ensures
        found == has_char(s@, c),
{
    let chars = chars_of(s);
    let mut i: usize = 0;
    while i < chars.len()
        invariant
            chars@ == s@,
            i <= chars@.len(),
            forall|k: int| 0 <= k < i ==> chars@[k] != c,
        decreases chars@.len() - i,
    {
        if chars[i] == c {
            return true;
        }
        i = i + 1;
    }
    false
}

/// `pattern` occurs in `s` as a contiguous piece.
pub open spec fn has_piece(s: Seq<char>, pattern: Seq<char>) -> bool {
    exists|k: int| 0 <= k && k + pattern.len() <= s.len() && #[trigger] s.subrange(k, k + pattern.len()) == pattern
}

/// Whether `pattern` occurs in `chars`.
pub fn contains_piece(chars: &Vec<char>, pattern: &Vec<char>) -> (found: bool)
    ensures
        found == has_piece(chars@, pattern@),
{
    let n = chars.len();
    let m = pattern.len();
    if m > n {
        assert forall|k: int| 0 <= k && k + m <= n implies #[trigger] chars@.subrange(k, k + m) != pattern@ by {}
        return false;
    }
    let mut k: usize = 0;
    while k <= n - m
        invariant
            n == chars@.len(),
            m == pattern@.len(),
            m <= n,
            k <= n - m + 1,
            forall|j: int| 0 <= j < k ==> #[trigger] chars@.subrange(j, j + m) != pattern@,
        decreases n - k,
    {
        let mut i: usize = 0;
        while i < m && chars[k + i] == pattern[i]
            invariant
                n == chars@.len(),
                m == pattern@.len(),
                k + m <= n,
                i <= m,
                forall|j: int| 0 <= j < i ==> chars@[k + j] == pattern@[j],
            decreases m - i,
        {
            i = i + 1;
        }
        if i == m {
            assert(chars@.subrange(k as int, k + m) =~= pattern@);
            return true;
        }
        assert(chars@.subrange(k as int, k + m)[i as int] != pattern@[i as int]);
        k = k + 1;
    }
    false
}

} // verus!
