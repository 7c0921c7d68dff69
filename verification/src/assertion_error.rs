use crate::lines::{chars_of, contains_piece, has_piece, join_strings, joined, lines_of, split_lines, string_of};
use crate::render_source_diagnostics::{diagnostic_renderable, render_source_diagnostic, rendered_diagnostic};
use crate::text::push_str;
use crate::line_diagnostic::{build_line_span_diagnostic, line_span_diagnostic, line_span_ok};
use crate::source_diagnostic::{SourceDiagnostic, SourceDiagnosticView};
use crate::source_file::{SourceFile, SourceFileView};
use crate::span::Span;
use vstd::prelude::*;
use vstd::string::StringExecFns;

verus! {

/// Structured assertion failure data for test-oriented runtime errors.
#[derive(Debug, Clone, PartialEq, Eq)]
pub struct AssertionError {
    pub diagnostic: SourceDiagnostic,
    pub expected: Option<String>,
    pub actual: Option<String>,
}

/// Specification view of an [`AssertionError`].
pub struct AssertionErrorView {
    pub diagnostic: SourceDiagnosticView,
    pub expected: Option<Seq<char>>,
    pub actual: Option<Seq<char>>,
}

/// The view of an optional string.
pub open spec fn option_view(s: Option<String>) -> Option<Seq<char>> {
    match s {
        Some(s) => Some(s@),
        None => None,
    }
}

impl View for AssertionError {
    type V = AssertionErrorView;

    open spec fn view(&self) -> AssertionErrorView {
        AssertionErrorView {
            diagnostic: self.diagnostic@,
            expected: option_view(self.expected),
            actual: option_view(self.actual),
        }
    }
}

/// The diagnostic of an assertion that failed at `span` of `file`.
pub open spec fn assertion_diagnostic(
    file: SourceFileView,
    span: (usize, usize),
    summary: Seq<char>,
) -> SourceDiagnosticView {
    line_span_diagnostic(file, span.0, span.1, summary, "assertion failed here"@)
}

/// The assertion error for `span` of `file` with `summary`, and the
/// expected and actual values when a diff is shown.
pub open spec fn assertion_error_view(
    file: SourceFileView,
    span: (usize, usize),
    summary: Seq<char>,
    diff: Option<(Seq<char>, Seq<char>)>,
) -> AssertionErrorView {
    AssertionErrorView {
        diagnostic: assertion_diagnostic(file, span, summary),
        expected: match diff {
            Some(d) => Some(d.0),
            None => None,
        },
        actual: match diff {
            Some(d) => Some(d.1),
            None => None,
        },
    }
}

/// An assertion error without a diff has the diagnostic of the one with a
/// diff, whatever the expected and actual values, and neither value.
pub proof fn law_without_diff_keeps_the_diagnostic(
    file: SourceFileView,
    span: (usize, usize),
    summary: Seq<char>,
    expected: Seq<char>,
    actual: Seq<char>,
)
    ensures
        assertion_error_view(file, span, summary, None) == (AssertionErrorView {
            diagnostic: assertion_error_view(file, span, summary, Some((expected, actual))).diagnostic,
            expected: None,
            actual: None,
        }),
{
}

impl AssertionError {
    /// Creates an assertion error for a source-file span and rendered values.
    pub fn new(
        source_file: &SourceFile,
        span: Span,
        summary: &str,
        expected: &str,
        actual: &str,
    ) -> (error: Self)
        requires
            line_span_ok(source_file@, span@.0),
        ensures
            error@ == assertion_error_view(source_file@, span@, summary@, Some((expected@, actual@))),
    {
        let diagnostic = build_line_span_diagnostic(
            source_file,
            span.start(),
            span.end(),
            summary,
            "assertion failed here",
        );
        AssertionError {
            diagnostic,
            expected: Some(String::from_str(expected)),
            actual: Some(String::from_str(actual)),
        }
    }

    /// Creates an assertion error for a source-file span without an expected/actual diff.
    pub fn new_without_diff(source_file: &SourceFile, span: Span, summary: &str) -> (error: Self)
        requires
            line_span_ok(source_file@, span@.0),
        ensures
            error@ == assertion_error_view(source_file@, span@, summary@, None),
    {
        let diagnostic = build_line_span_diagnostic(
            source_file,
            span.start(),
            span.end(),
            summary,
            "assertion failed here",
        );
        AssertionError { diagnostic, expected: None, actual: None }
    }

    /// Returns the assertion summary message.
    pub fn summary(&self) -> (summary: &String)
        ensures
            summary@ == self@.diagnostic.message,
    {
        &self.diagnostic.message
    }

    /// Returns the logical file path for this assertion failure.
    pub fn file_path(&self) -> (path: &String)
        ensures
            path@ == self@.diagnostic.file_path,
    {
        &self.diagnostic.file_path
    }
}

/// The position of the last `':'` among the first `n` characters.
pub open spec fn last_colon(line: Seq<char>, n: int) -> Option<int>
    decreases n,
{
    if n <= 0 {
        None
    } else if line[n - 1] == ':' {
        Some(n - 1)
    } else {
        last_colon(line, n - 1)
    }
}

/// Every character is an ASCII digit.
pub open spec fn all_ascii_digits(s: Seq<char>) -> bool {
    forall|k: int| 0 <= k < s.len() ==> '0' <= #[trigger] s[k] <= '9'
}

/// The line without the `:column` after its last colon, when all that
/// follows that colon are digits.
pub open spec fn without_trailing_column(line: Seq<char>) -> Seq<char> {
    match last_colon(line, line.len() as int) {
        None => line,
        Some(i) => if all_ascii_digits(line.subrange(i + 1, line.len() as int)) {
            line.subrange(0, i)
        } else {
            line
        },
    }
}

/// The line names the location of a snippet (it holds the `╭▸ ` marker).
pub open spec fn location_marked(line: Seq<char>) -> bool {
    has_piece(line, "╭▸ "@)
}

/// A line of a rendered diagnostic, without its column when it is a
/// snippet location line.
pub open spec fn column_stripped(line: Seq<char>) -> Seq<char> {
    if location_marked(line) {
        without_trailing_column(line)
    } else {
        line
    }
}

/// A rendered diagnostic whose snippet location lines lose their column.
pub open spec fn without_column_numbers(rendered: Seq<char>) -> Seq<char> {
    joined(lines_of(rendered).map_values(|l: Seq<char>| column_stripped(l)), "\n"@)
}

/// An assertion error as rendered: its diagnostic without column numbers,
/// then the expected and actual values when both are known.
pub open spec fn rendered_assertion(error: AssertionErrorView) -> Seq<char> {
    let rendered = without_column_numbers(rendered_diagnostic(error.diagnostic));
    match (error.expected, error.actual) {
        (Some(expected), Some(actual)) => rendered + "\n\nexpected: "@ + expected + "\nactual:   "@
            + actual,
        _ => rendered,
    }
}

/// Renders an assertion error as a source diagnostic and an optional short diff.
pub fn render_assertion_error(assertion_error: &AssertionError) -> (rendered: String)
    requires
        diagnostic_renderable(assertion_error@.diagnostic),
    ensures
        rendered@ == rendered_assertion(assertion_error@),
{
    let rendered_diagnostic = render_source_diagnostic(&assertion_error.diagnostic);
    let mut rendered = strip_column_from_assertion_diagnostic(rendered_diagnostic.as_str());
    match (&assertion_error.expected, &assertion_error.actual) {
        (Some(expected), Some(actual)) => {
            push_str(&mut rendered, "\n\nexpected: ");
            push_str(&mut rendered, expected.as_str());
            push_str(&mut rendered, "\nactual:   ");
            push_str(&mut rendered, actual.as_str());
            assert(rendered@ =~= rendered_assertion(assertion_error@));
        },
        _ => {},
    }
    rendered
}

/// Drops the column number from the snippet location lines.
fn strip_column_from_assertion_diagnostic(rendered: &str) -> (stripped: String)
    ensures
        stripped@ == without_column_numbers(rendered@),
{
    let marker = chars_of("╭▸ ");
    let lines = split_lines(rendered);
    let ghost f = |l: Seq<char>| column_stripped(l);
    let mut updated_lines: Vec<String> = Vec::new();
    let mut i: usize = 0;
    while i < lines.len()
        invariant
            marker@ == "╭▸ "@,
            lines@.map_values(|l: String| l@) == lines_of(rendered@),
            i <= lines@.len(),
            f == (|l: Seq<char>| column_stripped(l)),
            updated_lines@.map_values(|l: String| l@) == lines_of(rendered@).subrange(0, i as int).map_values(f),
        decreases lines@.len() - i,
    {
        let line_chars = chars_of(lines[i].as_str());
        let updated = if contains_piece(&line_chars, &marker) {
            strip_trailing_column_number(lines[i].as_str())
        } else {
            lines[i].clone()
        };
        let ghost before = updated_lines@.map_values(|l: String| l@);
        updated_lines.push(updated);
        proof {
            let views = lines_of(rendered@);
            assert(lines@.map_values(|l: String| l@)[i as int] == views[i as int]);
            assert(lines@[i as int]@ == views[i as int]);
            if location_marked(views[i as int]) {
                assert(updated@ == without_trailing_column(views[i as int]));
            } else {
                assert(updated@ == views[i as int]);
            }
            assert(updated@ == f(views[i as int]));
            assert(updated_lines@.map_values(|l: String| l@) =~= before.push(updated@));
            assert(views.subrange(0, i + 1) =~= views.subrange(0, i as int).push(views[i as int]));
            assert(views.subrange(0, i + 1).map_values(f) =~= views.subrange(0, i as int).map_values(f).push(updated@));
        }
        i = i + 1;
    }
    proof {
        assert(lines_of(rendered@).subrange(0, i as int) =~= lines_of(rendered@));
    }
    join_strings(&updated_lines, "\n")
}

/// Drops a `:digits` suffix after the last colon of a line.
fn strip_trailing_column_number(line: &str) -> (stripped: String)
    ensures
        stripped@ == without_trailing_column(line@),
{
    let chars = chars_of(line);
    let n = chars.len();
    let mut k = n;
    while k > 0 && chars[k - 1] != ':'
        invariant
            chars@ == line@,
            n == line@.len(),
            k <= n,
            last_colon(line@, k as int) == last_colon(line@, n as int),
        decreases k,
    {
        k = k - 1;
    }
    if k == 0 {
        return String::from_str(line);
    }
    let colon = k - 1;
    let mut j = k;
    while j < n && '0' <= chars[j] && chars[j] <= '9'
        invariant
            chars@ == line@,
            n == line@.len(),
            k <= j <= n,
            forall|m: int| k <= m < j ==> '0' <= #[trigger] chars@[m] <= '9',
        decreases n - j,
    {
        j = j + 1;
    }
    if j == n {
        let stripped = string_of(&chars, 0, colon);
        assert(all_ascii_digits(line@.subrange(k as int, n as int)));
        stripped
    } else {
        assert(!all_ascii_digits(line@.subrange(k as int, n as int))) by {
            assert(line@.subrange(k as int, n as int)[j - k] == chars@[j as int]);
        }
        String::from_str(line)
    }
}

} // verus!
