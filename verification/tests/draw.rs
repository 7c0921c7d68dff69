use pixui::draw::brush::Brush;
use pixui::draw::color::Color;
use pixui::draw::style_id::StyleId;
use pixui::draw::svg_renderer::{CommandShape, SvgRenderer};

#[test]
fn shapes_are_drawn_with_the_last_selected_style() {
    let commands = [
        CommandShape::SelectStyle(StyleId::new(0)),
        CommandShape::FillRoundedRectangle,
        CommandShape::SelectStyle(StyleId::new(1)),
        CommandShape::OutlineRoundedRectangle,
        CommandShape::DrawText,
        CommandShape::FillRoundedRectangle,
    ];

    let styles = SvgRenderer::drawn_styles(&commands, 2).unwrap();

    assert_eq!(styles, vec![None, Some(0), None, Some(1), None, Some(1)]);
}

#[test]
fn shapes_need_an_active_style() {
    let error = SvgRenderer::drawn_styles(&[CommandShape::FillRoundedRectangle], 1).unwrap_err();
    assert!(
        error
            .to_test_string()
            .contains("requires an active style before drawing a filled rounded rectangle")
    );

    let error = SvgRenderer::drawn_styles(&[CommandShape::DrawText, CommandShape::OutlineRoundedRectangle], 1)
        .unwrap_err();
    assert!(
        error
            .to_test_string()
            .contains("requires an active style before drawing an outlined rounded rectangle")
    );
}

#[test]
fn unknown_style_ids_are_rejected() {
    let error = SvgRenderer::drawn_styles(&[CommandShape::SelectStyle(StyleId::new(3))], 0).unwrap_err();
    assert!(error.to_test_string().contains("selected unknown style id 3"));
}

#[test]
fn the_first_refused_command_decides_the_error() {
    let commands = [
        CommandShape::SelectStyle(StyleId::new(5)),
        CommandShape::FillRoundedRectangle,
    ];
    let error = SvgRenderer::drawn_styles(&commands, 5).unwrap_err();
    assert!(error.to_test_string().contains("selected unknown style id 5"));
}

#[test]
fn an_empty_command_stream_draws_nothing() {
    assert_eq!(SvgRenderer::drawn_styles(&[], 0).unwrap(), Vec::<Option<usize>>::new());
}

#[test]
fn style_ids_keep_their_index() {
    assert_eq!(StyleId::new(7).index(), 7);
}

#[test]
fn brush_attributes_name_the_color_and_flag_translucency() {
    let opaque = Brush::SolidColor(Color::rgba(10, 20, 30, 255));
    assert_eq!(
        SvgRenderer::brush_attributes(&opaque, "fill"),
        (String::from("fill=\"rgb(10, 20, 30)\""), None)
    );
    let translucent = Brush::SolidColor(Color::rgba(40, 50, 60, 128));
    assert_eq!(
        SvgRenderer::brush_attributes(&translucent, "stroke"),
        (String::from("stroke=\"rgb(40, 50, 60)\""), Some(128))
    );
}
