//! Rendering of source diagnostics as annotated source snippets.
use crate::diagnostic_level::DiagnosticLevel;
use crate::lines::{join_strings, joined};
use crate::source_annotation::SourceAnnotationView;
use crate::source_diagnostic::{SourceDiagnostic, SourceDiagnosticView};
use crate::text::{decimal, push_decimal, push_str, utf8};
use annotate_snippets::renderer::DecorStyle;
use annotate_snippets::{AnnotationKind, Group, Level, Renderer, Snippet};
use vstd::prelude::*;
use crate::lines::chars_of;
use crate::source_annotation::SourceAnnotation;
use crate::source_excerpt::{SourceExcerpt, SourceExcerptView};
use crate::text::bytes_of;
use vstd::utf8::{is_char_boundary, valid_utf8};

verus! {

broadcast use crate::text::group_utf8_facts;

/// The report that annotate-snippets renders for one diagnostic: a styled
/// title line with the level and message, then each excerpt's source line
/// with its path and line number and the annotated spans underlined
/// (`Renderer::styled()` with unicode decorations).
pub uninterp spec fn snippet_report(diagnostic: SourceDiagnosticView) -> Seq<char>;

/// An annotation span that the renderer can place on `line`: ordered, at
/// most one past the end of the line, with both ends on character boundaries
/// inside the line.
pub open spec fn annotation_renderable(line: Seq<char>, annotation: SourceAnnotationView) -> bool {
    let b = utf8(line);
    &&& annotation.span.0 <= annotation.span.1 <= b.len() + 1
    &&& annotation.span.0 < usize::MAX
    &&& (annotation.span.0 <= b.len() ==> is_char_boundary(b, annotation.span.0 as int))
    &&& (annotation.span.1 <= b.len() ==> is_char_boundary(b, annotation.span.1 as int))
}

/// The number of line breaks in `s`.
pub open spec fn line_break_count(s: Seq<char>) -> nat
    decreases s.len(),
{
    if s.len() == 0 {
        0
    } else {
        line_break_count(s.drop_last()) + if s.last() == '\n' {
            1nat
        } else {
            0nat
        }
    }
}

/// The renderer numbers the lines of an excerpt from its line number on,
/// and looks one line past the last: those numbers must fit a `usize`.
pub open spec fn line_numbers_fit(excerpt: SourceExcerptView) -> bool {
    excerpt.line_number + line_break_count(excerpt.source_line) < usize::MAX
}

/// Every excerpt's line numbers fit, and every annotation of every excerpt
/// can be rendered.
pub open spec fn diagnostic_renderable(diagnostic: SourceDiagnosticView) -> bool {
    &&& forall|i: int| 0 <= i < diagnostic.excerpts.len() ==> line_numbers_fit(#[trigger] diagnostic.excerpts[i])
    &&& forall|i: int, j: int|
        0 <= i < diagnostic.excerpts.len() && 0 <= j < diagnostic.excerpts[i].annotations.len()
            ==> annotation_renderable(
            diagnostic.excerpts[i].source_line,
            #[trigger] diagnostic.excerpts[i].annotations[j],
        )
}

/// Whether the line numbers of the excerpt fit.
pub fn excerpt_line_numbers_fit(excerpt: &SourceExcerpt) -> (fit: bool)
    ensures
        fit == line_numbers_fit(excerpt@),
{
    let chars = chars_of(excerpt.source_line.as_str());
    let mut count: usize = 0;
    let mut i: usize = 0;
    while i < chars.len()
        invariant
            chars@ == excerpt.source_line@,
            i <= chars@.len(),
            count <= i,
            count == line_break_count(chars@.subrange(0, i as int)),
        decreases chars@.len() - i,
    {
        proof {
            assert(chars@.subrange(0, i + 1).drop_last() =~= chars@.subrange(0, i as int));
        }
        if chars[i] == '\n' {
            count = count + 1;
        }
        i = i + 1;
    }
    assert(chars@.subrange(0, i as int) =~= chars@);
    count < usize::MAX - excerpt.line_number
}

/// Whether `index` is a character boundary of the bytes or lies past their end.
fn boundary_or_past_end(bytes: &[u8], index: usize) -> (found: bool)
    requires
        valid_utf8(bytes@),
    ensures
        found == (index <= bytes@.len() ==> is_char_boundary(bytes@, index as int)),
{
    if index >= bytes.len() {
        proof {
            vstd::utf8::is_char_boundary_start_end_of_seq(bytes@);
        }
        true
    } else {
        let byte = bytes[index];
        proof {
            vstd::utf8::is_char_boundary_iff_not_is_continuation_byte(bytes@, index as int);
            assert(vstd::utf8::is_continuation_byte(byte) == (0x80 <= byte && byte <= 0xbf));
        }
        !(0x80 <= byte && byte <= 0xbf)
    }
}

/// Whether the annotation can be placed on `line`.
pub fn annotation_fits(line: &str, annotation: &SourceAnnotation) -> (fits: bool)
    ensures
        fits == annotation_renderable(line@, annotation@),
{
    let bytes = line.as_bytes();
    assert(bytes@ == bytes_of(line));
    let start = annotation.span.start();
    let end = annotation.span.end();
    start <= end && (end == 0 || end - 1 <= bytes.len()) && start < usize::MAX && boundary_or_past_end(
        bytes,
        start,
    ) && boundary_or_past_end(bytes, end)
}

/// Whether every annotation of the diagnostic can be rendered.
pub fn diagnostic_is_renderable(diagnostic: &SourceDiagnostic) -> (renderable: bool)
    ensures
        renderable == diagnostic_renderable(diagnostic@),
{
    let mut i: usize = 0;
    while i < diagnostic.excerpts.len()
        invariant
            i <= diagnostic.excerpts@.len(),
            forall|a: int| 0 <= a < i ==> line_numbers_fit(#[trigger] diagnostic@.excerpts[a]),
            forall|a: int, j: int|
                0 <= a < i && 0 <= j < diagnostic@.excerpts[a].annotations.len() ==> annotation_renderable(
                    diagnostic@.excerpts[a].source_line,
                    #[trigger] diagnostic@.excerpts[a].annotations[j],
                ),
        decreases diagnostic.excerpts@.len() - i,
    {
        let excerpt = &diagnostic.excerpts[i];
        if !excerpt_line_numbers_fit(excerpt) {
            assert(!line_numbers_fit(diagnostic@.excerpts[i as int]));
            return false;
        }
        let mut j: usize = 0;
        while j < excerpt.annotations.len()
            invariant
                i < diagnostic.excerpts@.len(),
                *excerpt == diagnostic.excerpts@[i as int],
                j <= excerpt.annotations@.len(),
                forall|k: int| 0 <= k < j ==> annotation_renderable(
                    diagnostic@.excerpts[i as int].source_line,
                    #[trigger] diagnostic@.excerpts[i as int].annotations[k],
                ),
            decreases excerpt.annotations@.len() - j,
        {
            if !annotation_fits(excerpt.source_line.as_str(), &excerpt.annotations[j]) {
                assert(diagnostic@.excerpts[i as int].annotations[j as int] == excerpt.annotations@[j as int]@);
                assert(!annotation_renderable(
                    diagnostic@.excerpts[i as int].source_line,
                    diagnostic@.excerpts[i as int].annotations[j as int],
                ));
                return false;
            }
            j = j + 1;
        }
        i = i + 1;
    }
    true
}

/// Renders one diagnostic with annotate-snippets (`Renderer::render` of
/// `Renderer::styled()` with unicode decorations); the result is named by
/// `snippet_report`, and nothing more is stated of it.  The renderer slices
/// each source line at its annotations' offsets, which panics inside a
/// character, so only renderable diagnostics are handed to it.
#[verifier::external_body]
fn render_snippet_report(diagnostic: &SourceDiagnostic) -> (report: String)
    requires
        diagnostic_renderable(diagnostic@),
    ensures
        report@ == snippet_report(diagnostic@),
{
    let level = match diagnostic.level {
        DiagnosticLevel::Error => Level::ERROR,
        DiagnosticLevel::Warning => Level::WARNING,
    };
    let mut group = Group::with_title(level.primary_title(diagnostic.message.as_str()));
    for e in &diagnostic.excerpts {
        let snippet = Snippet::source(e.source_line.as_str()).line_start(e.line_number);
        group = group.element(snippet.path(e.file_path.as_str()).fold(false).annotations(
            e.annotations.iter().map(|a| AnnotationKind::Primary.span(a.span.as_range()).label(a.message.as_str())),
        ));
    }
    Renderer::styled().decor_style(DecorStyle::Unicode).render(&[group])
}

/// The `at path:line:column` line that follows a diagnostic with excerpts:
/// the first excerpt's path and line, and the column where its first
/// annotation starts (one-based), or column 1.
pub open spec fn location_line(diagnostic: SourceDiagnosticView) -> Option<Seq<char>> {
    if diagnostic.excerpts.len() == 0 {
        None
    } else {
        let excerpt = diagnostic.excerpts[0];
        let column: nat = if excerpt.annotations.len() > 0 {
            (excerpt.annotations[0].span.0 + 1) as nat
        } else {
            1
        };
        Some(
            "at "@ + excerpt.file_path + ":"@ + decimal(excerpt.line_number as nat) + ":"@ + decimal(
                column,
            ),
        )
    }
}

/// The location line names the first excerpt's path and line, and as its
/// column one past where that excerpt's first annotation starts (column 1
/// without annotations). Annotations added after the first, and excerpts
/// added after the first, leave it as it is; a diagnostic without excerpts
/// has none.
pub proof fn law_location_follows_the_first_annotation(
    d: SourceDiagnosticView,
    extra: SourceAnnotationView,
    more: SourceExcerptView,
)
    ensures
        d.excerpts.len() == 0 <==> location_line(d) is None,
        d.excerpts.len() > 0 && d.excerpts[0].annotations.len() > 0 ==> location_line(d) == Some(
            "at "@ + d.excerpts[0].file_path + ":"@ + decimal(d.excerpts[0].line_number as nat) + ":"@ + decimal(
                (d.excerpts[0].annotations[0].span.0 + 1) as nat,
            ),
        ),
        d.excerpts.len() > 0 && d.excerpts[0].annotations.len() == 0 ==> location_line(d) == Some(
            "at "@ + d.excerpts[0].file_path + ":"@ + decimal(d.excerpts[0].line_number as nat) + ":1"@,
        ),
        d.excerpts.len() > 0 && d.excerpts[0].annotations.len() > 0 ==> location_line(
            SourceDiagnosticView {
                excerpts: d.excerpts.update(
                    0,
                    SourceExcerptView { annotations: d.excerpts[0].annotations.push(extra), ..d.excerpts[0] },
                ),
                ..d
            },
        ) == location_line(d),
        d.excerpts.len() > 0 ==> location_line(SourceDiagnosticView { excerpts: d.excerpts.push(more), ..d })
            == location_line(d),
{
    reveal_strlit(":1");
    reveal_strlit(":");
    assert(decimal(1) == seq!['1']);
    if d.excerpts.len() > 0 && d.excerpts[0].annotations.len() == 0 {
        assert(":"@ + decimal(1) =~= ":1"@);
    }
}

/// One diagnostic as rendered: its report, then its location line.
pub open spec fn rendered_diagnostic(diagnostic: SourceDiagnosticView) -> Seq<char> {
    snippet_report(diagnostic) + match location_line(diagnostic) {
        Some(line) => "\n"@ + line,
        None => Seq::empty(),
    }
}

/// Diagnostics as rendered: each rendered, separated by a blank line.
pub open spec fn rendered_diagnostics(diagnostics: Seq<SourceDiagnosticView>) -> Seq<char> {
    joined(diagnostics.map_values(|d: SourceDiagnosticView| rendered_diagnostic(d)), "\n\n"@)
}

/// The location line of a diagnostic, when it has an excerpt.
fn source_diagnostic_location_line(diagnostic: &SourceDiagnostic) -> (line: Option<String>)
    requires
        diagnostic_renderable(diagnostic@),
    ensures
        match (line, location_line(diagnostic@)) {
            (Some(l), Some(expected)) => l@ == expected,
            (None, None) => true,
            _ => false,
        },
{
    if diagnostic.excerpts.len() == 0 {
        return None;
    }
    let excerpt = &diagnostic.excerpts[0];
    let column = if excerpt.annotations.len() > 0 {
        proof {
            assert(annotation_renderable(diagnostic@.excerpts[0].source_line, diagnostic@.excerpts[0].annotations[0]));
        }
        excerpt.annotations[0].span.start() + 1
    } else {
        1
    };
    let mut line = String::new();
    push_str(&mut line, "at ");
    push_str(&mut line, excerpt.file_path.as_str());
    push_str(&mut line, ":");
    push_decimal(&mut line, excerpt.line_number);
    push_str(&mut line, ":");
    push_decimal(&mut line, column);
    assert(line@ =~= location_line(diagnostic@).unwrap());
    Some(line)
}

/// Renders one diagnostic with its location line.
pub fn render_source_diagnostic(diagnostic: &SourceDiagnostic) -> (rendered: String)
    requires
        diagnostic_renderable(diagnostic@),
    ensures
        rendered@ == rendered_diagnostic(diagnostic@),
{
    let mut rendered = render_snippet_report(diagnostic);
    match source_diagnostic_location_line(diagnostic) {
        Some(line) => {
            push_str(&mut rendered, "\n");
            push_str(&mut rendered, line.as_str());
        },
        None => {},
    }
    assert(rendered@ =~= rendered_diagnostic(diagnostic@));
    rendered
}

/// Renders source diagnostics into a displayable string.
pub fn render_source_diagnostics(diagnostics: &[SourceDiagnostic]) -> (rendered: String)
    requires
        forall|i: int| 0 <= i < diagnostics@.len() ==> diagnostic_renderable(#[trigger] diagnostics@[i]@),
    ensures
        rendered@ == rendered_diagnostics(diagnostics@.map_values(|d: SourceDiagnostic| d@)),
{
    let mut rendered_groups: Vec<String> = Vec::new();
    let mut i: usize = 0;
    while i < diagnostics.len()
        invariant
            i <= diagnostics@.len(),
            forall|k: int| 0 <= k < diagnostics@.len() ==> diagnostic_renderable(#[trigger] diagnostics@[k]@),
            rendered_groups@.map_values(|s: String| s@) == diagnostics@.subrange(0, i as int).map_values(
                |d: SourceDiagnostic| rendered_diagnostic(d@),
            ),
        decreases diagnostics@.len() - i,
    {
        let rendered = render_source_diagnostic(&diagnostics[i]);
        let ghost before = rendered_groups@.map_values(|s: String| s@);
        rendered_groups.push(rendered);
        proof {
            assert(rendered_groups@.map_values(|s: String| s@) =~= before.push(rendered@));
            assert(diagnostics@.subrange(0, i + 1) =~= diagnostics@.subrange(0, i as int).push(diagnostics@[i as int]));
            assert(diagnostics@.subrange(0, i + 1).map_values(|d: SourceDiagnostic| rendered_diagnostic(d@))
                =~= diagnostics@.subrange(0, i as int).map_values(|d: SourceDiagnostic| rendered_diagnostic(d@)).push(rendered@));
        }
        i = i + 1;
    }
    let rendered = join_strings(&rendered_groups, "\n\n");
    assert(diagnostics@.subrange(0, i as int) =~= diagnostics@);
    assert(diagnostics@.map_values(|d: SourceDiagnostic| d@).map_values(
        |d: SourceDiagnosticView| rendered_diagnostic(d),
    ) =~= diagnostics@.map_values(|d: SourceDiagnostic| rendered_diagnostic(d@)));
    rendered
}

} // verus!
