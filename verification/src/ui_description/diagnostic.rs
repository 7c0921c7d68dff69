use crate::error::{ErrorKindView, PixuiError, PixuiErrorView, root_error};
use crate::line_diagnostic::{build_line_span_diagnostic, line_span_diagnostic, line_span_ok};
use crate::source_file::{SourceFile, SourceFileView};
use crate::span::Span;
use crate::text::utf8;
use vstd::prelude::*;

verus! {

/// The span that a diagnostic highlights: both ends clamped to the source,
/// and an empty span inside the source widened to one byte.
pub open spec fn clamped_span(len: usize, start: usize, end: usize) -> (usize, usize) {
    let s = if start < len { start } else { len };
    let e = if end < len { end } else { len };
    if s == e && s < len {
        (s, (s + 1) as usize)
    } else {
        (s, e)
    }
}

/// Inputs on which a UI description error can be built for `span`.
pub open spec fn ui_description_error_ok(file: SourceFileView, span: (usize, usize)) -> bool {
    line_span_ok(file, clamped_span(utf8(file.source).len() as usize, span.0, span.1).0)
}

/// The runtime error that reports `summary` for `span` of `file`.
pub open spec fn ui_description_error_view(
    file: SourceFileView,
    span: (usize, usize),
    summary: Seq<char>,
    annotation: Seq<char>,
) -> PixuiErrorView {
    let clamped = clamped_span(utf8(file.source).len() as usize, span.0, span.1);
    root_error(
        ErrorKindView::RuntimeError(
            line_span_diagnostic(file, clamped.0, clamped.1, summary, annotation),
        ),
        None,
    )
}

/// Builds the runtime error for a problem at `span` of a UI description file.
pub fn ui_description_error(
    source_file: &SourceFile,
    span: Span,
    summary: &str,
    annotation: &str,
) -> (error: PixuiError)
    requires
        ui_description_error_ok(source_file@, span@),
    ensures
        error@ == ui_description_error_view(source_file@, span@, summary@, annotation@),
{
    let span = clamp_span(source_file, span);
    let diagnostic = build_line_span_diagnostic(
        source_file,
        span.start(),
        span.end(),
        summary,
        annotation,
    );
    PixuiError::runtime_error(diagnostic)
}

fn clamp_span(source_file: &SourceFile, span: Span) -> (clamped: Span)
    ensures
        clamped@ == clamped_span(utf8(source_file@.source).len() as usize, span@.0, span@.1),
{
    let source_len = source_file.source().len();
    let start = if span.start() < source_len { span.start() } else { source_len };
    let mut end = if span.end() < source_len { span.end() } else { source_len };
    if start == end && start < source_len {
        end = start + 1;
    }
    Span::new(start, end)
}

} // verus!
