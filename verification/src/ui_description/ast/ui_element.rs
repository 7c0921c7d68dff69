use crate::span::Span;
use crate::ui_description::ast::ui_property::{UiProperty, UiPropertyView};
use vstd::prelude::*;

verus! {

/// Parsed UI element node.
#[derive(Debug, PartialEq, Eq)]
pub struct UiElement {
    /// Tag name as written in the source.
    pub tag_name: String,
    /// Ordered string properties for the element.
    pub properties: Vec<UiProperty>,
    /// Ordered child elements.
    pub children: Vec<UiElement>,
    /// Full source span covering the element.
    pub span: Span,
}

/// Specification view of a [`UiElement`].
pub struct UiElementView {
    pub tag_name: Seq<char>,
    pub properties: Seq<UiPropertyView>,
    pub children: Seq<UiElementView>,
    pub span: (usize, usize),
}

/// The views of a sequence of properties.
pub open spec fn properties_view(properties: Seq<UiProperty>) -> Seq<UiPropertyView> {
    properties.map_values(|p: UiProperty| p@)
}

/// The view of an element and, recursively, of its children.
pub open spec fn element_view(element: UiElement) -> UiElementView
    decreases element,
{
    UiElementView {
        tag_name: element.tag_name@,
        properties: properties_view(element.properties@),
        children: Seq::new(
            element.children@.len(),
            |i: int|
                if 0 <= i < element.children@.len() {
                    element_view(element.children@[i])
                } else {
                    arbitrary()
                },
        ),
        span: element.span@,
    }
}

impl View for UiElement {
    type V = UiElementView;

    open spec fn view(&self) -> UiElementView {
        element_view(*self)
    }
}

} // verus!
