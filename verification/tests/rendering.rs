use pixui::cli::cli_error_is_renderable;
use pixui::render_source_diagnostics::{annotation_fits, diagnostic_is_renderable};
use pixui::assertion_error::{AssertionError, render_assertion_error};
use pixui::cli::format_cli_error;
use pixui::compilation_stage::CompilationStage;
use pixui::diagnostic_level::DiagnosticLevel;
use pixui::error::{CodeLocation, PixuiError, SpanRecord, format_span_trace_fields};
use pixui::render_source_diagnostics::render_source_diagnostics;
use pixui::source_annotation::SourceAnnotation;
use pixui::source_diagnostic::SourceDiagnostic;
use pixui::source_excerpt::SourceExcerpt;
use pixui::source_file::SourceFile;
use pixui::span::Span;
use pixui::unansi;

const TEST_FILE: &str = "crates/base/tests/error_rendering.rs";

#[test]
fn renders_assertion_errors_with_a_source_diagnostic_and_diff() {
    let source_file = SourceFile::new("examples/tests.pixui", "assert_eq(\"a\", \"b\");");
    let assertion_error = AssertionError::new(
        &source_file,
        Span::new(0, source_file.source().len() - 1),
        "assert_eq values differ",
        "\"a\"",
        "\"b\"",
    );

    let rendered = unansi(&render_assertion_error(&assertion_error));

    assert_eq!(
        rendered,
        "error: assert_eq values differ
  ╭▸ examples/tests.pixui:1
  │
1 │ assert_eq(\"a\", \"b\");
  ╰╴━━━━━━━━━━━━━━━━━━━ assertion failed here
at examples/tests.pixui:1:1

expected: \"a\"
actual:   \"b\""
    );
}

#[test]
fn renders_assertion_errors_without_a_diff_block() {
    let source_file = SourceFile::new("examples/tests.pixui", "assert(false);");
    let assertion_error = AssertionError::new_without_diff(
        &source_file,
        Span::new(0, source_file.source().len() - 1),
        "assert condition was false",
    );

    let rendered = unansi(&render_assertion_error(&assertion_error));

    assert_eq!(
        rendered,
        "error: assert condition was false
  ╭▸ examples/tests.pixui:1
  │
1 │ assert(false);
  ╰╴━━━━━━━━━━━━━ assertion failed here
at examples/tests.pixui:1:1"
    );
}

#[test]
fn renders_plain_source_diagnostic_with_excerpt() {
    let diagnostic = SourceDiagnostic::new(
        DiagnosticLevel::Error,
        "examples/test.pixui",
        "unresolved identifier `value`",
    )
    .with_excerpt(
        SourceExcerpt::new("examples/test.pixui", 3, "println(value);")
            .with_annotation(SourceAnnotation::new(Span::new(8, 13), "not found")),
    );

    let rendered = unansi(&render_source_diagnostics(&[diagnostic]));

    assert_eq!(
        rendered,
        "error: unresolved identifier `value`
  ╭▸ examples/test.pixui:3:9
  │
3 │ println(value);
  ╰╴        ━━━━━ not found
at examples/test.pixui:3:9"
    );
}

#[test]
fn renders_styled_source_diagnostic() {
    let diagnostic = SourceDiagnostic::new(
        DiagnosticLevel::Warning,
        "examples/test.pixui",
        "unused value",
    )
    .with_excerpt(
        SourceExcerpt::new("examples/test.pixui", 2, "println(value);")
            .with_annotation(SourceAnnotation::new(Span::new(8, 13), "never read")),
    );

    let rendered = unansi(&render_source_diagnostics(&[diagnostic]));

    assert_eq!(
        rendered,
        "warning: unused value
  ╭▸ examples/test.pixui:2:9
  │
2 │ println(value);
  ╰╴        ━━━━━ never read
at examples/test.pixui:2:9"
    );
}

#[test]
fn styled_rendering_differs_from_its_stripped_text() {
    let diagnostic = SourceDiagnostic::new(DiagnosticLevel::Error, "a.pixui", "boom");
    let styled = render_source_diagnostics(&[diagnostic]);
    assert!(styled.contains('\u{1b}'));
    assert!(!unansi(&styled).contains('\u{1b}'));
}

#[test]
fn err_macro_formats_error_with_caller_location() {
    let error = PixuiError::message_at_location("test 123", CodeLocation::new(TEST_FILE, 13, 17));

    assert_eq!(
        error.to_test_string(),
        "× error test 123
  at crates/base/tests/error_rendering.rs:13:17
"
    );
}

#[test]
fn chained_error_formats_cause_and_locations() {
    let error = PixuiError::message_at_location("failed to read file", CodeLocation::new(TEST_FILE, 39, 9))
        .with_source(PixuiError::message_at_location("missing file", CodeLocation::new(TEST_FILE, 39, 64)));

    assert_eq!(
        error.to_test_string(),
        "× error failed to read file
  at crates/base/tests/error_rendering.rs:39:9
caused by: missing file
     at crates/base/tests/error_rendering.rs:39:64
"
    );
}

#[test]
fn std_source_error_formats_cause_and_locations() {
    let error = PixuiError::message_at_location("cannot initialize", CodeLocation::new(TEST_FILE, 53, 17))
        .with_std_source_at_location("missing config", CodeLocation::new(TEST_FILE, 53, 58));

    assert_eq!(
        error.to_test_string(),
        "× error cannot initialize
  at crates/base/tests/error_rendering.rs:53:17
caused by: missing config
     at crates/base/tests/error_rendering.rs:53:58
"
    );
}

#[test]
fn multiline_cause_renders_as_indented_block() {
    let error = PixuiError::message_at_location("failed to load recipe", CodeLocation::new(TEST_FILE, 66, 17))
        .with_source(PixuiError::message_at_location("line one\nline two", CodeLocation::new(TEST_FILE, 67, 22)));

    assert_eq!(
        error.to_test_string(),
        "× error failed to load recipe
  at crates/base/tests/error_rendering.rs:66:17
caused by:
   line one
   line two
     at crates/base/tests/error_rendering.rs:67:22
"
    );
}

#[test]
fn errors_without_a_recorded_location_render_without_one() {
    let error = PixuiError::message("plain");
    assert_eq!(error.to_test_string(), "× error plain\n");
}

#[test]
fn cli_report_lists_single_line_causes() {
    let error = PixuiError::message_at_location("outer", CodeLocation::new("a.rs", 1, 2))
        .with_source(
            PixuiError::message_at_location("middle", CodeLocation::new("b.rs", 3, 4))
                .with_source(PixuiError::message("two\nlines")),
        );

    let rendered = unansi(&format_cli_error("operation failed", &error));

    assert!(rendered.starts_with("━━ operation failed\n× error outer\n"));
    assert!(rendered.ends_with("━━ cause chain\n  • middle\n    at b.rs:3:4\n"));
    assert!(!rendered.contains("  • two"));
}

#[test]
fn cli_report_of_a_compilation_error_is_its_message() {
    let error = PixuiError::compilation_error(CompilationStage::Parser)
        .with_source(PixuiError::message("rendered diagnostics"));

    assert_eq!(format_cli_error("operation failed", &error), "rendered diagnostics\n");
}

#[test]
fn cli_report_of_an_assertion_error_ends_with_a_newline() {
    let source_file = SourceFile::new("t.pixui", "assert(false);");
    let assertion_error =
        AssertionError::new_without_diff(&source_file, Span::new(0, 13), "assert condition was false");
    let error = PixuiError::assertion_error(assertion_error);

    let rendered = format_cli_error("operation failed", &error);

    assert!(rendered.ends_with('\n'));
    assert!(unansi(&rendered).starts_with("error: assert condition was false"));
}

#[test]
fn cli_report_of_a_runtime_error_is_the_rendered_diagnostic() {
    let diagnostic = SourceDiagnostic::new(DiagnosticLevel::Error, "r.pixui", "went wrong");
    let error = PixuiError::runtime_error(diagnostic);

    let rendered = unansi(&format_cli_error("operation failed", &error));

    assert!(rendered.starts_with("error: went wrong"));
    assert!(rendered.ends_with('\n'));
}

#[test]
fn test_format_span_trace_fields() {
    let rendered = format_span_trace_fields(
        "sources_dir=verification/sources output_dir=verification/output/pixui",
    );
    let rendered = unansi(&rendered);

    assert_eq!(
        rendered,
        "sources_dir: verification/sources output_dir: verification/output/pixui"
    );
}

#[test]
fn span_trace_fields_split_at_any_white_space_and_style_values() {
    assert_eq!(
        format_span_trace_fields("  a=1\t\nflag \u{3000}b=x=y  "),
        "a: \u{1b}[1;97m1\u{1b}[0m flag b: \u{1b}[1;97mx=y\u{1b}[0m"
    );
    assert_eq!(format_span_trace_fields(" \t "), "");
}

#[test]
fn annotations_must_fit_their_source_line() {
    assert!(annotation_fits("println(value);", &SourceAnnotation::new(Span::new(8, 13), "x")));
    assert!(annotation_fits("abc", &SourceAnnotation::new(Span::new(3, 4), "past the end")));
    assert!(!annotation_fits("abc", &SourceAnnotation::new(Span::new(2, 5), "too far")));
    assert!(!annotation_fits("abc", &SourceAnnotation::new(Span::new(2, 1), "reversed")));
    assert!(!annotation_fits("é", &SourceAnnotation::new(Span::new(1, 2), "inside a character")));
    assert!(annotation_fits("é", &SourceAnnotation::new(Span::new(0, 2), "whole character")));

    let fitting = SourceDiagnostic::new(DiagnosticLevel::Error, "f", "m").with_excerpt(
        SourceExcerpt::new("f", 1, "abc").with_annotation(SourceAnnotation::new(Span::new(0, 1), "a")),
    );
    assert!(diagnostic_is_renderable(&fitting));
    let misplaced = SourceDiagnostic::new(DiagnosticLevel::Error, "f", "m").with_excerpt(
        SourceExcerpt::new("f", 1, "abc")
            .with_annotation(SourceAnnotation::new(Span::new(0, 1), "a"))
            .with_annotation(SourceAnnotation::new(Span::new(7, 9), "b")),
    );
    assert!(!diagnostic_is_renderable(&misplaced));
}

#[test]
fn cli_rendering_needs_renderable_diagnostics() {
    assert!(cli_error_is_renderable(&PixuiError::message("plain")));
    let misplaced = SourceDiagnostic::new(DiagnosticLevel::Error, "f", "m").with_excerpt(
        SourceExcerpt::new("f", 1, "abc").with_annotation(SourceAnnotation::new(Span::new(7, 9), "b")),
    );
    assert!(!cli_error_is_renderable(&PixuiError::runtime_error(misplaced)));
}

fn span(target: &str, name: &str, fields: &str, file_line: Option<(&str, u32)>) -> SpanRecord {
    SpanRecord {
        target: target.to_string(),
        name: name.to_string(),
        fields: fields.to_string(),
        file_line: file_line.map(|(file, line)| (file.to_string(), line)),
    }
}

#[test]
fn span_trace_renders_as_structured_frames() {
    let error = PixuiError::message_at_location("failed inside span", CodeLocation::new(TEST_FILE, 86, 17))
        .with_span_trace(vec![span("error_rendering", "error_test_span", "", Some((TEST_FILE, 83)))]);

    assert_eq!(
        error.to_test_string(),
        "× error failed inside span
  at crates/base/tests/error_rendering.rs:86:17
  span trace:
    0: error_rendering::error_test_span
       at crates/base/tests/error_rendering.rs:83
"
    );
}

#[test]
fn chained_error_only_renders_root_cause_span_trace() {
    let trace = || {
        vec![
            span("error_rendering", "inner_error_span", "", Some((TEST_FILE, 104))),
            span("error_rendering", "outer_error_span", "", Some((TEST_FILE, 101))),
        ]
    };
    let error = PixuiError::message_at_location("outer failure", CodeLocation::new(TEST_FILE, 106, 9))
        .with_span_trace(trace())
        .with_source(
            PixuiError::message_at_location("root cause", CodeLocation::new(TEST_FILE, 106, 58))
                .with_span_trace(trace()),
        );

    let rendered = error.to_test_string();

    assert!(rendered.contains("outer failure"));
    assert!(rendered.contains("caused by: root cause"));
    assert!(rendered.contains("inner_error_span"));
    assert!(rendered.contains("outer_error_span"));
    assert_eq!(rendered.matches("span trace:").count(), 1);
}

#[test]
fn span_trace_frames_show_fields_and_are_separated_by_blank_lines() {
    let error = PixuiError::message("boom").with_span_trace(vec![
        span("app::load", "read", "path=a.txt size=3", None),
        span("app", "main", "", Some(("src/main.rs", 7))),
    ]);

    assert_eq!(
        error.to_test_string(),
        "× error boom
  span trace:
    0: app::load::read
       path: a.txt size: 3

    1: app::main
       at src/main.rs:7
"
    );
    assert_eq!(error.span_trace().len(), 2);
}

#[test]
fn excerpt_line_numbers_must_fit_with_their_line_breaks() {
    let near_the_end = SourceDiagnostic::new(DiagnosticLevel::Error, "f", "m")
        .with_excerpt(SourceExcerpt::new("f", usize::MAX - 2, "a\nb"));
    assert!(diagnostic_is_renderable(&near_the_end));
    let past_the_end = SourceDiagnostic::new(DiagnosticLevel::Error, "f", "m")
        .with_excerpt(SourceExcerpt::new("f", usize::MAX - 1, "a\nb"));
    assert!(!diagnostic_is_renderable(&past_the_end));
    assert!(!cli_error_is_renderable(&PixuiError::runtime_error(past_the_end)));
}
