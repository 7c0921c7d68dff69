//! Terminal styling with ANSI escape sequences.
use crate::text::push_str;
use vstd::prelude::*;

verus! {

/// The text that remains of `s` once its ANSI escape sequences are removed,
/// as `anstream::adapter::strip_str` computes it.
pub uninterp spec fn ansi_stripped(s: Seq<char>) -> Seq<char>;

/// Removes ANSI escape sequences from a string
/// (`anstream::adapter::strip_str`).  The result is named by `ansi_stripped`;
/// nothing more is stated of it.
#[verifier::external_body]
pub fn unansi(string: &str) -> (stripped: String)
    ensures
        stripped@ == ansi_stripped(string@),
{
    anstream::adapter::strip_str(string).to_string()
}

/// `text` wrapped in the ANSI style `code`, reset afterwards.
pub open spec fn styled(code: Seq<char>, text: Seq<char>) -> Seq<char> {
    "\u{1b}["@ + code + "m"@ + text + "\u{1b}[0m"@
}

/// Appends `text` wrapped in the ANSI style `code`.
pub fn push_styled(out: &mut String, code: &str, text: &str)
    ensures
        final(out)@ == old(out)@ + styled(code@, text@),
{
    push_str(out, "\u{1b}[");
    push_str(out, code);
    push_str(out, "m");
    push_str(out, text);
    push_str(out, "\u{1b}[0m");
    assert(final(out)@ =~= old(out)@ + styled(code@, text@));
}

/// `text` wrapped in the ANSI style `code`.
pub fn style(code: &str, text: &str) -> (s: String)
    ensures
        s@ == styled(code@, text@),
{
    let mut s = String::new();
    push_styled(&mut s, code, text);
    assert(s@ =~= styled(code@, text@));
    s
}

} // verus!
