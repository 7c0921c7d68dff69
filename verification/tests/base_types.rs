use pixui::compilation_stage::CompilationStage;
use pixui::diagnostic_level::DiagnosticLevel;
use pixui::line_bounds::LineBounds;
use pixui::source_annotation::SourceAnnotation;
use pixui::source_diagnostic::SourceDiagnostic;
use pixui::source_excerpt::SourceExcerpt;
use pixui::source_file::SourceFile;
use pixui::span::Span;

#[test]
fn compilation_stage_formats_as_lowercase_name() {
    assert_eq!(CompilationStage::Lexer.to_string(), "lexer");
    assert_eq!(CompilationStage::Parser.to_string(), "parser");
    assert_eq!(CompilationStage::Resolver.to_string(), "resolver");
}

#[test]
fn diagnostic_levels_are_comparable() {
    assert_eq!(DiagnosticLevel::Error, DiagnosticLevel::Error);
    assert_ne!(DiagnosticLevel::Error, DiagnosticLevel::Warning);
}

#[test]
fn reports_bounds_for_the_first_line() {
    let line_bounds = LineBounds::new("alpha\nbeta", 2);

    assert_eq!(line_bounds.line_number, 1);
    assert_eq!(line_bounds.line_start, 0);
    assert_eq!(line_bounds.line_end, 5);
}

#[test]
fn reports_bounds_for_a_later_line() {
    let line_bounds = LineBounds::new("alpha\nbeta\ngamma", 8);

    assert_eq!(line_bounds.line_number, 2);
    assert_eq!(line_bounds.line_start, 6);
    assert_eq!(line_bounds.line_end, 10);
}

#[test]
fn reports_bounds_for_the_last_line_without_a_trailing_newline() {
    let line_bounds = LineBounds::new("alpha\nbeta", 9);

    assert_eq!(line_bounds.line_number, 2);
    assert_eq!(line_bounds.line_start, 6);
    assert_eq!(line_bounds.line_end, 10);
}

#[test]
fn reports_bounds_at_a_newline_and_past_multibyte_text() {
    let line_bounds = LineBounds::new("é\nß\n", 2);
    assert_eq!(line_bounds.line_number, 1);
    assert_eq!(line_bounds.line_start, 0);
    assert_eq!(line_bounds.line_end, 2);

    let line_bounds = LineBounds::new("é\nß\n", 3);
    assert_eq!(line_bounds.line_number, 2);
    assert_eq!(line_bounds.line_start, 3);
    assert_eq!(line_bounds.line_end, 5);
}

#[test]
fn source_diagnostic_tracks_level_file_and_excerpts() {
    let diagnostic = SourceDiagnostic::new(
        DiagnosticLevel::Error,
        "examples/test.pixui",
        "unresolved identifier `value`",
    )
    .with_excerpt(
        SourceExcerpt::new("examples/test.pixui", 2, "println(value);")
            .with_annotation(SourceAnnotation::new(Span::new(8, 13), "not found")),
    );

    assert_eq!(diagnostic.level, DiagnosticLevel::Error);
    assert_eq!(diagnostic.file_path.as_str(), "examples/test.pixui");
    assert_eq!(diagnostic.message, "unresolved identifier `value`");
    assert_eq!(diagnostic.excerpts.len(), 1);
    assert_eq!(diagnostic.excerpts[0].line_number, 2);
    assert_eq!(diagnostic.excerpts[0].annotations.len(), 1);
}

#[test]
fn source_excerpt_tracks_annotations() {
    let excerpt = SourceExcerpt::new("examples/test.pixui", 3, "println(value);")
        .with_annotation(SourceAnnotation::new(Span::new(8, 13), "unknown name"));

    assert_eq!(excerpt.file_path.as_str(), "examples/test.pixui");
    assert_eq!(excerpt.line_number, 3);
    assert_eq!(excerpt.source_line, "println(value);");
    assert_eq!(excerpt.annotations.len(), 1);
    assert_eq!(excerpt.annotations[0].span, Span::new(8, 13));
    assert_eq!(excerpt.annotations[0].message, "unknown name");
}

#[test]
fn source_file_stores_path_and_source() {
    let source_file = SourceFile::new("examples/hello.pixui", "println(\"hello\");");

    assert_eq!(source_file.path.as_str(), "examples/hello.pixui");
    assert_eq!(source_file.source(), "println(\"hello\");");
}

#[test]
fn span_exposes_offsets_and_length() {
    let span = Span::new(2, 5);

    assert_eq!(span.start(), 2);
    assert_eq!(span.end(), 5);
    assert_eq!(span.len(), 3);
    assert!(!span.is_empty());
    assert_eq!(span.as_range(), 2..5);
}

#[test]
fn empty_span_reports_empty() {
    let span = Span::new(3, 3);

    assert!(span.is_empty());
    assert_eq!(span.len(), 0);
}

#[test]
fn reversed_span_has_no_length() {
    let span = Span::new(5, 2);

    assert!(span.is_empty());
    assert_eq!(span.len(), 0);
}

#[test]
fn spans_convert_to_and_from_ranges() {
    let span = Span::from(2..5);
    assert_eq!(span, Span::new(2, 5));
    assert_eq!(std::ops::Range::from(span), 2..5);
    assert_eq!(span.as_range(), 2..5);
}
