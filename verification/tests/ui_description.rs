use pixui::span::Span;
use pixui::unansi;
use pixui::ui_description::ast::ui_element::UiElement;
use pixui::ui_description::ast::ui_property::UiProperty;
use pixui::cli::format_cli_error;
use pixui::source_file::SourceFile;
use pixui::ui_description::lexer::{lex, lex_source_file};
use pixui::ui_description::parser::parse_ui_description;
use pixui::ui_description::token_kind::TokenKind;

#[test]
fn lexes_simple_self_closing_tag() {
    let tokens = lex(r#"<Button />"#).unwrap();

    assert_eq!(
        tokens.iter().map(|token| &token.kind).collect::<Vec<_>>(),
        vec![
            &TokenKind::LessThan,
            &TokenKind::Identifier(String::from("Button")),
            &TokenKind::SlashGreaterThan,
        ]
    );
    assert_eq!(tokens[0].span, Span::new(0, 1));
    assert_eq!(tokens[1].span, Span::new(1, 7));
    assert_eq!(tokens[2].span, Span::new(8, 10));
}

#[test]
fn lexes_nested_tags_and_string_properties() {
    let tokens = lex(r#"<Stack><Button label="Save" /></Stack>"#).unwrap();

    assert_eq!(
        tokens.iter().map(|token| &token.kind).collect::<Vec<_>>(),
        vec![
            &TokenKind::LessThan,
            &TokenKind::Identifier(String::from("Stack")),
            &TokenKind::GreaterThan,
            &TokenKind::LessThan,
            &TokenKind::Identifier(String::from("Button")),
            &TokenKind::Identifier(String::from("label")),
            &TokenKind::Equals,
            &TokenKind::StringLiteral(String::from("Save")),
            &TokenKind::SlashGreaterThan,
            &TokenKind::LessThanSlash,
            &TokenKind::Identifier(String::from("Stack")),
            &TokenKind::GreaterThan,
        ]
    );
}

#[test]
fn parses_a_self_closing_component_with_a_string_property() {
    let element = parse_ui_description(r#"<Button label="Save" />"#).unwrap();

    assert_eq!(
        element,
        UiElement {
            tag_name: String::from("Button"),
            properties: vec![UiProperty {
                name: String::from("label"),
                value: String::from("Save"),
                span: Span::new(8, 20),
            }],
            children: Vec::new(),
            span: Span::new(0, 23),
        }
    );
}

#[test]
fn parses_a_parent_with_multiple_child_elements() {
    let element =
        parse_ui_description(r#"<Stack><Button label="Save" /><Button label="Cancel" /></Stack>"#)
            .unwrap();

    assert_eq!(element.tag_name, "Stack");
    assert_eq!(element.children.len(), 2);
    assert_eq!(element.children[0].tag_name, "Button");
    assert_eq!(element.children[0].properties[0].value, "Save");
    assert_eq!(element.children[1].properties[0].value, "Cancel");
}

#[test]
fn parses_multiple_string_properties() {
    let element = parse_ui_description(r#"<Button label="Save" variant="primary" />"#).unwrap();

    assert_eq!(element.properties.len(), 2);
    assert_eq!(element.properties[0].name, "label");
    assert_eq!(element.properties[0].value, "Save");
    assert_eq!(element.properties[1].name, "variant");
    assert_eq!(element.properties[1].value, "primary");
}

#[test]
fn rejects_unterminated_string_literals() {
    let source_file = SourceFile::new("examples/ui.pixui", r#"<Button label="Save />"#);
    let error = lex_source_file(&source_file).unwrap_err();

    let rendered = unansi(&format_cli_error("lexing failed", &error));

    assert!(rendered.contains("error: Unterminated string literal"));
    assert!(rendered.contains("examples/ui.pixui:1:15"));
    assert!(rendered.contains("missing its closing quote"));
}

#[test]
fn rejects_unexpected_characters() {
    let source_file = SourceFile::new("examples/ui.pixui", "{");
    let error = lex_source_file(&source_file).unwrap_err();
    let rendered = unansi(&format_cli_error("lexing failed", &error));

    assert!(rendered.contains("error: Unexpected character `{`"));
    assert!(rendered.contains("examples/ui.pixui:1:1"));
    assert!(rendered.contains("not valid in the UI description syntax"));
}

#[test]
fn rejects_mismatched_closing_tags() {
    let error = parse_ui_description(r#"<Stack></Button>"#).unwrap_err();

    assert!(
        error
            .to_test_string()
            .contains("Mismatched closing tag: expected `</Stack>` but found `</Button>`")
    );
}

#[test]
fn rejects_missing_closing_tags_at_end_of_file() {
    let error = parse_ui_description(r#"<Stack><Button />"#).unwrap_err();

    assert!(
        error
            .to_test_string()
            .contains("Missing closing tag for `<Stack>`")
    );
}

#[test]
fn rejects_missing_equals_in_property_syntax() {
    let error = parse_ui_description(r#"<Button label "Save" />"#).unwrap_err();

    assert!(
        error
            .to_test_string()
            .contains("Expected `=` after a property name")
    );
}

#[test]
fn rejects_malformed_string_literals_from_the_parse_api() {
    let error = parse_ui_description(r#"<Button label="Save />"#).unwrap_err();

    assert!(
        error
            .to_test_string()
            .contains("Unterminated string literal")
    );
}

#[test]
fn lexing_error_in_a_file_is_reported_at_its_line_and_column() {
    let source_file = SourceFile::new("views/main.pixui", "<Stack>\n  <Label text=\"hi\" />\n  ?\n</Stack>");
    let error = lex_source_file(&source_file).unwrap_err();
    let rendered = unansi(&format_cli_error("lexing failed", &error));

    assert!(rendered.contains("error: Unexpected character `?`"));
    assert!(rendered.contains("views/main.pixui:3:3"));
}

#[test]
fn empty_source_has_no_element() {
    let error = parse_ui_description("").unwrap_err();
    assert!(!error.to_test_string().is_empty());
}

#[test]
fn lexed_tokens_are_in_order_and_do_not_overlap() {
    let source = "<Stack>\n  <Button label=\"Save \\\"now\\\"\" />\n</Stack>";
    let tokens = lex(source).unwrap();
    for token in &tokens {
        assert!(token.span.start() < token.span.end());
        assert!(token.span.end() <= source.len());
    }
    for pair in tokens.windows(2) {
        assert!(pair[0].span.end() <= pair[1].span.start());
    }
    assert_eq!(tokens.len(), 12);
}

#[test]
fn parsed_element_spans_nest() {
    let source = r#"<Stack gap="2"><Button label="Save" /><Label /></Stack>"#;
    let element = parse_ui_description(source).unwrap();

    assert_eq!(element.span, Span::new(0, source.len()));
    assert_eq!(element.properties[0].span, Span::new(7, 14));
    assert_eq!(element.children[0].span, Span::new(15, 38));
    assert_eq!(element.children[0].properties[0].span, Span::new(23, 35));
    assert_eq!(element.children[1].span, Span::new(38, 47));
    assert!(element.properties[0].span.end() <= element.children[0].span.start());
    assert!(element.children[0].span.end() <= element.children[1].span.start());
    assert!(element.children[1].span.end() < element.span.end());
}
