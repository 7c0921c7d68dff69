//! Rendering of errors for command-line output.
use crate::assertion_error::{render_assertion_error, rendered_assertion};
use crate::error::{CodeLocation, CodeLocationView, ErrorKind, ErrorKindView, PixuiError, PixuiErrorView, cause_chain, causes_view, location_view, rendered_error};
use crate::lines::{contains_char, has_char};
use crate::render_source_diagnostics::{diagnostic_is_renderable, diagnostic_renderable, render_source_diagnostic, rendered_diagnostic};
use crate::text::{decimal, push_decimal, push_str};
use vstd::prelude::*;
use vstd::string::StringExecFns;

verus! {

/// The output that replaces the generic report for some error kinds: an
/// assertion error or a runtime diagnostic as rendered, or the message
/// that caused a compilation error.
pub open spec fn special_error_output(error: PixuiErrorView) -> Option<Seq<char>> {
    match error.kind {
        ErrorKindView::AssertionError(a) => Some(rendered_assertion(a)),
        ErrorKindView::RuntimeError(d) => Some(rendered_diagnostic(d)),
        ErrorKindView::CompilationError(_) => match error.source {
            Some(source) => match source.kind {
                ErrorKindView::Message(m) => Some(m),
                _ => None,
            },
            None => None,
        },
        _ => None,
    }
}

/// The text with a line break at its end.
pub open spec fn with_trailing_newline(s: Seq<char>) -> Seq<char> {
    if s.len() > 0 && s.last() == '\n' {
        s
    } else {
        s.push('\n')
    }
}

/// The entries of the cause chain section: each cause on a bullet line,
/// followed by its location when one was recorded.
pub open spec fn cause_entries(causes: Seq<(Seq<char>, Option<CodeLocationView>)>) -> Seq<char>
    decreases causes.len(),
{
    if causes.len() == 0 {
        Seq::empty()
    } else {
        let cause = causes.last();
        cause_entries(causes.drop_last()) + "  • "@ + cause.0 + "\n"@ + match cause.1 {
            Some(l) => "    at "@ + l.file + ":"@ + decimal(l.line as nat) + ":"@ + decimal(
                l.column as nat,
            ) + "\n"@,
            None => Seq::empty(),
        }
    }
}

/// The causes that fit on one line.
pub open spec fn simple_causes(causes: Seq<(Seq<char>, Option<CodeLocationView>)>) -> Seq<(Seq<char>, Option<CodeLocationView>)>
    decreases causes.len(),
{
    if causes.len() == 0 {
        Seq::empty()
    } else {
        let earlier = simple_causes(causes.drop_last());
        if has_char(causes.last().0, '\n') {
            earlier
        } else {
            earlier.push(causes.last())
        }
    }
}

/// The command-line rendering of an error under `headline`.
pub open spec fn cli_error_text(headline: Seq<char>, error: PixuiErrorView) -> Seq<char> {
    match special_error_output(error) {
        Some(rendered) => with_trailing_newline(rendered),
        None => {
            let report = "\u{1b}[1;31m━━ "@ + headline + "\u{1b}[0m\n"@ + rendered_error(error);
            let simple = simple_causes(cause_chain(error));
            if simple.len() == 0 {
                report
            } else {
                report + "\n"@ + "\u{1b}[1;33m━━ cause chain\u{1b}[0m\n"@ + cause_entries(simple)
            }
        },
    }
}

/// Errors whose command-line rendering can be produced: the diagnostics
/// that would be rendered can be.
pub open spec fn cli_renderable(error: PixuiErrorView) -> bool {
    match error.kind {
        ErrorKindView::AssertionError(a) => diagnostic_renderable(a.diagnostic),
        ErrorKindView::RuntimeError(d) => diagnostic_renderable(d),
        _ => true,
    }
}

/// Whether the command-line rendering of the error can be produced.
pub fn cli_error_is_renderable(error: &PixuiError) -> (renderable: bool)
    ensures
        renderable == cli_renderable(error@),
{
    match error.kind() {
        ErrorKind::AssertionError(assertion_error) => diagnostic_is_renderable(&assertion_error.diagnostic),
        ErrorKind::RuntimeError(diagnostic) => diagnostic_is_renderable(diagnostic),
        _ => true,
    }
}

/// Returns a stable, human-readable rendering of a [`PixuiError`] for CLI output.
pub fn format_cli_error(headline: &str, error: &PixuiError) -> (rendered: String)
    requires
        cli_renderable(error@),
    ensures
        rendered@ == cli_error_text(headline@, error@),
{
    match special_error_output_of(error) {
        Some(rendered) => return ensure_trailing_newline(rendered),
        None => {},
    }
    let mut rendered = String::from_str("\u{1b}[1;31m━━ ");
    push_str(&mut rendered, headline);
    push_str(&mut rendered, "\u{1b}[0m\n");
    error.write_to(&mut rendered);
    let mut causes: Vec<(String, Option<CodeLocation>)> = Vec::new();
    error.collect_causes(&mut causes);
    assert(causes_view(causes@) =~= cause_chain(error@));
    let ghost all = causes_view(causes@);
    let mut any_simple = false;
    let mut entries = String::new();
    let mut i: usize = 0;
    while i < causes.len()
        invariant
            all == causes_view(causes@),
            i <= causes@.len(),
            entries@ == cause_entries(simple_causes(all.subrange(0, i as int))),
            any_simple == (simple_causes(all.subrange(0, i as int)).len() > 0),
        decreases causes@.len() - i,
    {
        let (cause, location) = &causes[i];
        let ghost prefix = all.subrange(0, i as int);
        let ghost entry = all[i as int];
        proof {
            assert(all.subrange(0, i + 1).drop_last() =~= prefix);
            assert(entry == (cause@, location_view(*location)));
        }
        if !contains_char(cause.as_str(), '\n') {
            let ghost earlier = simple_causes(prefix);
            push_str(&mut entries, "  • ");
            push_str(&mut entries, cause.as_str());
            push_str(&mut entries, "\n");
            match location {
                Some(l) => {
                    push_str(&mut entries, "    at ");
                    push_str(&mut entries, l.file.as_str());
                    push_str(&mut entries, ":");
                    push_decimal(&mut entries, l.line as usize);
                    push_str(&mut entries, ":");
                    push_decimal(&mut entries, l.column as usize);
                    push_str(&mut entries, "\n");
                },
                None => {},
            }
            any_simple = true;
            proof {
                assert(simple_causes(all.subrange(0, i + 1)) == earlier.push(entry));
                assert(earlier.push(entry).drop_last() =~= earlier);
            }
        }
        i = i + 1;
        assert(entries@ =~= cause_entries(simple_causes(all.subrange(0, i as int))));
    }
    assert(all.subrange(0, i as int) =~= all);
    if any_simple {
        push_str(&mut rendered, "\n");
        push_str(&mut rendered, "\u{1b}[1;33m━━ cause chain\u{1b}[0m\n");
        push_str(&mut rendered, entries.as_str());
    }
    rendered
}

/// The output that replaces the generic report, when the error's kind has one.
fn special_error_output_of(error: &PixuiError) -> (output: Option<String>)
    requires
        cli_renderable(error@),
    ensures
        match (output, special_error_output(error@)) {
            (Some(o), Some(expected)) => o@ == expected,
            (None, None) => true,
            _ => false,
        },
{
    match error.kind() {
        ErrorKind::AssertionError(assertion_error) => Some(render_assertion_error(assertion_error)),
        ErrorKind::RuntimeError(diagnostic) => Some(render_source_diagnostic(diagnostic)),
        ErrorKind::CompilationError(_) => match error.source() {
            Some(source) => match source.kind().as_message() {
                Some(message) => Some(message.clone()),
                None => None,
            },
            None => None,
        },
        ErrorKind::Message(_) => None,
        ErrorKind::Std(_) => None,
    }
}

/// Adds a line break at the end unless there is one.
fn ensure_trailing_newline(rendered: String) -> (ended: String)
    ensures
        ended@ == with_trailing_newline(rendered@),
{
    let mut rendered = rendered;
    let chars = crate::lines::chars_of(rendered.as_str());
    if chars.len() == 0 || chars[chars.len() - 1] != '\n' {
        crate::text::push_char(&mut rendered, '\n');
    }
    rendered
}

} // verus!
