//! Builds a one-excerpt diagnostic that points at a span of a source file.
use crate::diagnostic_level::DiagnosticLevel;
use crate::line_bounds::{LineBounds, line_start_of, line_end_of, newline_count, lemma_line_bounds_are_boundaries, lemma_line_start_bounds, lemma_line_end_bounds};
use crate::source_annotation::{SourceAnnotation, SourceAnnotationView};
use crate::source_diagnostic::{SourceDiagnostic, SourceDiagnosticView};
use crate::source_excerpt::{SourceExcerpt, SourceExcerptView};
use crate::source_file::{SourceFile, SourceFileView};
use crate::span::Span;
use crate::text::{utf8, bytes_of, substring};
use vstd::prelude::*;
use vstd::utf8::*;

verus! {

broadcast use crate::text::group_utf8_facts;

/// `a - b`, or zero when `b` exceeds `a`.
pub open spec fn saturating_sub(a: usize, b: usize) -> usize {
    if a >= b {
        (a - b) as usize
    } else {
        0
    }
}

/// Inputs on which a line can be cut out of `file` around byte `start`:
/// the offset lies on a character boundary of the source.
pub open spec fn line_span_ok(file: SourceFileView, start: usize) -> bool {
    &&& start <= utf8(file.source).len()
    &&& is_char_boundary(utf8(file.source), start as int)
    &&& utf8(file.source).len() < usize::MAX
}

/// The error diagnostic for the span `start..end` of `file`: one excerpt
/// holding the whole line around `start`, annotated with the span made
/// relative to that line.
pub open spec fn line_span_diagnostic(
    file: SourceFileView,
    start: usize,
    end: usize,
    summary: Seq<char>,
    annotation: Seq<char>,
) -> SourceDiagnosticView {
    let b = utf8(file.source);
    let line_start = line_start_of(b, start as int);
    let line_end = line_end_of(b, start as int);
    let line_number = newline_count(b.subrange(0, line_start)) + 1;
    SourceDiagnosticView {
        level: DiagnosticLevel::Error,
        file_path: file.path,
        message: summary,
        excerpts: seq![
            SourceExcerptView {
                file_path: file.path,
                line_number: line_number as usize,
                source_line: decode_utf8(b.subrange(line_start, line_end)),
                annotations: seq![
                    SourceAnnotationView {
                        span: (
                            saturating_sub(start, line_start as usize),
                            saturating_sub(end, line_start as usize),
                        ),
                        message: annotation,
                    },
                ],
            },
        ],
    }
}

/// Builds the error diagnostic that [`line_span_diagnostic`] describes.
pub fn build_line_span_diagnostic(
    source_file: &SourceFile,
    start: usize,
    end: usize,
    summary: &str,
    annotation: &str,
) -> (diagnostic: SourceDiagnostic)
    requires
        line_span_ok(source_file@, start),
    ensures
        diagnostic@ == line_span_diagnostic(source_file@, start, end, summary@, annotation@),
{
    let source = source_file.source();
    let line_bounds = LineBounds::new(source, start);
    proof {
        lemma_line_bounds_are_boundaries(bytes_of(source), start as int);
        lemma_line_start_bounds(bytes_of(source), start as int);
        lemma_line_end_bounds(bytes_of(source), start as int);
    }
    let source_line = substring(source, line_bounds.line_start, line_bounds.line_end);
    let relative_start = start.saturating_sub(line_bounds.line_start);
    let relative_end = end.saturating_sub(line_bounds.line_start);
    let path = source_file.path.as_str();
    let diagnostic = SourceDiagnostic::new(DiagnosticLevel::Error, path, summary).with_excerpt(
        SourceExcerpt::new(path, line_bounds.line_number, source_line).with_annotation(
            SourceAnnotation::new(Span::new(relative_start, relative_end), annotation),
        ),
    );
    assert(diagnostic@ =~= line_span_diagnostic(
        source_file@,
        start,
        end,
        summary@,
        annotation@,
    ));
    diagnostic
}

} // verus!
