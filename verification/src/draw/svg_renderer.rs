//! The style rules of the SVG renderer: which style each draw command is
//! drawn with, and which command stream is refused.
use crate::draw::brush::Brush;
use crate::draw::color::Color;
use crate::draw::style_id::StyleId;
use crate::error::{ErrorKindView, PixuiError, PixuiErrorView, root_error};
use crate::text::{decimal, push_decimal, push_str};
use vstd::prelude::*;
use vstd::string::StringExecFns;

verus! {

/// What the style rules need to know of a draw command.
#[derive(Debug, Clone, Copy, PartialEq, Eq)]
pub enum CommandShape {
    /// Selects the style used by the following commands.
    SelectStyle(StyleId),
    /// A filled rounded rectangle.
    FillRoundedRectangle,
    /// An outlined rounded rectangle.
    OutlineRoundedRectangle,
    /// Text, which the SVG renderer does not draw.
    DrawText,
}

/// The error of a message without a recorded location.
pub open spec fn svg_error(message: Seq<char>) -> PixuiErrorView {
    root_error(ErrorKindView::Message(message), None)
}

/// The styles of the first `n` commands: for each command the style it is
/// drawn with (none for commands that draw no shape), and the style
/// selected after them; or the error of the first refused command.
pub open spec fn styles_upto(commands: Seq<CommandShape>, style_count: nat, n: int) -> Result<
    (Seq<Option<usize>>, Option<usize>),
    PixuiErrorView,
>
    decreases n,
{
    if n <= 0 {
        Ok((Seq::empty(), None))
    } else {
        match styles_upto(commands, style_count, n - 1) {
            Err(e) => Err(e),
            Ok((drawn, active)) => match commands[n - 1] {
                CommandShape::SelectStyle(id) => if id@ < style_count {
                    Ok((drawn.push(None), Some(id@)))
                } else {
                    Err(svg_error("Draw command selected unknown style id "@ + decimal(id@ as nat)))
                },
                CommandShape::FillRoundedRectangle => match active {
                    Some(s) => Ok((drawn.push(Some(s)), active)),
                    None => Err(
                        svg_error(
                            "Draw command requires an active style before drawing a filled rounded rectangle"@,
                        ),
                    ),
                },
                CommandShape::OutlineRoundedRectangle => match active {
                    Some(s) => Ok((drawn.push(Some(s)), active)),
                    None => Err(
                        svg_error(
                            "Draw command requires an active style before drawing an outlined rounded rectangle"@,
                        ),
                    ),
                },
                CommandShape::DrawText => Ok((drawn.push(None), active)),
            },
        }
    }
}

/// The style each command is drawn with, or the error of the first
/// refused command.
pub open spec fn drawn_styles(commands: Seq<CommandShape>, style_count: nat) -> Result<Seq<Option<usize>>, PixuiErrorView> {
    match styles_upto(commands, style_count, commands.len() as int) {
        Ok((drawn, _)) => Ok(drawn),
        Err(e) => Err(e),
    }
}

/// Once a command is refused, the command stream stays refused with that
/// command's error.
pub proof fn lemma_refusal_persists(commands: Seq<CommandShape>, style_count: nat, k: int, n: int)
    requires
        0 <= k <= n,
        styles_upto(commands, style_count, k) is Err,
    ensures
        styles_upto(commands, style_count, n) == styles_upto(commands, style_count, k),
    decreases n - k,
{
    if n > k {
        lemma_refusal_persists(commands, style_count, k, n - 1);
    }
}

/// The style selected by the last style selection among the first `k`
/// commands.
pub open spec fn last_selected(commands: Seq<CommandShape>, k: int) -> Option<usize>
    decreases k,
{
    if k <= 0 {
        None
    } else {
        match commands[k - 1] {
            CommandShape::SelectStyle(id) => Some(id@),
            _ => last_selected(commands, k - 1),
        }
    }
}

/// Whether the command draws a shape.
pub open spec fn is_shape(command: CommandShape) -> bool {
    command is FillRoundedRectangle || command is OutlineRoundedRectangle
}

/// What the first `n` accepted commands are drawn with, and which style is
/// selected after them.
proof fn lemma_styles_upto(commands: Seq<CommandShape>, style_count: nat, n: int)
    requires
        0 <= n <= commands.len(),
        styles_upto(commands, style_count, n) is Ok,
    ensures
        ({
            let (drawn, active) = styles_upto(commands, style_count, n)->Ok_0;
            &&& active == last_selected(commands, n)
            &&& drawn.len() == n
            &&& forall|k: int| 0 <= k < n ==> #[trigger] drawn[k] == if is_shape(commands[k]) {
                last_selected(commands, k)
            } else {
                None
            }
            &&& forall|k: int| 0 <= k < n && is_shape(#[trigger] commands[k]) ==> last_selected(commands, k) is Some
            &&& (active matches Some(a) ==> a < style_count)
            &&& forall|k: int| 0 <= k <= n ==> (#[trigger] last_selected(commands, k) matches Some(a) ==> a < style_count)
        }),
    decreases n,
{
    if n > 0 {
        lemma_styles_upto(commands, style_count, n - 1);
    }
}

/// In an accepted command stream every shape is drawn with the style that
/// the last style selection before it chose, and that style exists; other
/// commands draw with no style.
pub proof fn law_shapes_use_the_last_selected_style(commands: Seq<CommandShape>, style_count: nat, k: int)
    requires
        drawn_styles(commands, style_count) is Ok,
        0 <= k < commands.len(),
    ensures
        ({
            let drawn = drawn_styles(commands, style_count)->Ok_0;
            &&& drawn.len() == commands.len()
            &&& is_shape(commands[k]) ==> drawn[k] == last_selected(commands, k) && drawn[k] is Some
            &&& drawn[k] matches Some(style) ==> style < style_count
            &&& !is_shape(commands[k]) ==> drawn[k] is None
        }),
{
    lemma_styles_upto(commands, style_count, commands.len() as int);
}

/// The SVG attribute `name` that paints with the brush's color:
/// `name="rgb(red, green, blue)"`.
pub open spec fn brush_color_attribute(brush: Brush, name: Seq<char>) -> Seq<char> {
    match brush {
        Brush::SolidColor(color) => name + "=\"rgb("@ + decimal(color.red as nat) + ", "@ + decimal(
            color.green as nat,
        ) + ", "@ + decimal(color.blue as nat) + ")\""@,
    }
}

/// The brush's alpha when it is not fully opaque, which then needs an
/// opacity attribute.
pub open spec fn brush_translucency(brush: Brush) -> Option<u8> {
    match brush {
        Brush::SolidColor(color) => if color.alpha == 255 {
            None
        } else {
            Some(color.alpha)
        },
    }
}

/// A brush needs an opacity attribute exactly when it is not fully opaque,
/// and then with its own alpha: whether it does depends on the alpha
/// alone, and the color attribute on the red, green and blue alone.
pub proof fn law_opacity_follows_alpha(color: Color, other: Color, name: Seq<char>)
    ensures
        brush_translucency(Brush::SolidColor(color)) is None <==> color.alpha == u8::MAX,
        brush_translucency(Brush::SolidColor(color)) matches Some(alpha) ==> alpha == color.alpha && alpha < u8::MAX,
        color.alpha == other.alpha ==> brush_translucency(Brush::SolidColor(color)) == brush_translucency(
            Brush::SolidColor(other),
        ),
        color.red == other.red && color.green == other.green && color.blue == other.blue ==> brush_color_attribute(
            Brush::SolidColor(color),
            name,
        ) == brush_color_attribute(Brush::SolidColor(other), name),
{
}

/// Renders draw lists into SVG documents.
#[derive(Debug, Default, Clone, Copy, PartialEq, Eq)]
pub struct SvgRenderer;

impl SvgRenderer {
    /// The color attribute named `attribute_name` for the brush, and the
    /// brush's alpha when an opacity attribute must follow it.
    pub fn brush_attributes(brush: &Brush, attribute_name: &str) -> (attributes: (String, Option<u8>))
        ensures
            attributes.0@ == brush_color_attribute(*brush, attribute_name@),
            attributes.1 == brush_translucency(*brush),
    {
        match brush {
            Brush::SolidColor(color) => {
                let mut attribute = String::new();
                push_str(&mut attribute, attribute_name);
                push_str(&mut attribute, "=\"rgb(");
                push_decimal(&mut attribute, color.red as usize);
                push_str(&mut attribute, ", ");
                push_decimal(&mut attribute, color.green as usize);
                push_str(&mut attribute, ", ");
                push_decimal(&mut attribute, color.blue as usize);
                push_str(&mut attribute, ")\"");
                assert(attribute@ =~= brush_color_attribute(*brush, attribute_name@));
                let translucency = if color.alpha == 255 {
                    None
                } else {
                    Some(color.alpha)
                };
                (attribute, translucency)
            },
        }
    }

    /// The style each command of a draw list with `style_count` styles is
    /// drawn with: commands draw with the style selected last, a selected
    /// style must exist, and a shape needs a selected style.
    pub fn drawn_styles(commands: &[CommandShape], style_count: usize) -> (styles: Result<Vec<Option<usize>>, PixuiError>)
        ensures
            match (styles, drawn_styles(commands@, style_count as nat)) {
                (Ok(s), Ok(expected)) => s@ == expected,
                (Err(e), Err(expected)) => e@ == expected,
                _ => false,
            },
    {
        let mut drawn: Vec<Option<usize>> = Vec::new();
        let mut active: Option<usize> = None;
        let mut i: usize = 0;
        while i < commands.len()
            invariant
                i <= commands@.len(),
                styles_upto(commands@, style_count as nat, i as int) == Ok::<(Seq<Option<usize>>, Option<usize>), PixuiErrorView>((drawn@, active)),
            decreases commands@.len() - i,
        {
            match commands[i] {
                CommandShape::SelectStyle(id) => {
                    let index = id.index();
                    if index < style_count {
                        drawn.push(None);
                        active = Some(index);
                    } else {
                        let mut message = String::from_str("Draw command selected unknown style id ");
                        push_decimal(&mut message, index);
                        let error = PixuiError::message_string(message);
                        proof {
                            lemma_refusal_persists(commands@, style_count as nat, i + 1, commands@.len() as int);
                        }
                        return Err(error);
                    }
                },
                CommandShape::FillRoundedRectangle => match active {
                    Some(s) => drawn.push(Some(s)),
                    None => {
                        proof {
                            lemma_refusal_persists(commands@, style_count as nat, i + 1, commands@.len() as int);
                        }
                        return Err(
                            PixuiError::message(
                                "Draw command requires an active style before drawing a filled rounded rectangle",
                            ),
                        );
                    },
                },
                CommandShape::OutlineRoundedRectangle => match active {
                    Some(s) => drawn.push(Some(s)),
                    None => {
                        proof {
                            lemma_refusal_persists(commands@, style_count as nat, i + 1, commands@.len() as int);
                        }
                        return Err(
                            PixuiError::message(
                                "Draw command requires an active style before drawing an outlined rounded rectangle",
                            ),
                        );
                    },
                },
                CommandShape::DrawText => drawn.push(None),
            }
            i = i + 1;
        }
        Ok(drawn)
    }
}

} // verus!
