use crate::span::Span;
use vstd::prelude::*;

verus! {

/// Parsed string property on a UI element.
#[derive(Debug, Clone, PartialEq, Eq)]
pub struct UiProperty {
    /// Property name as written in the source.
    pub name: String,
    /// Decoded string value.
    pub value: String,
    /// Full source span covering the property.
    pub span: Span,
}

/// Specification view of a [`UiProperty`].
pub struct UiPropertyView {
    pub name: Seq<char>,
    pub value: Seq<char>,
    pub span: (usize, usize),
}

impl View for UiProperty {
    type V = UiPropertyView;

    open spec fn view(&self) -> UiPropertyView {
        UiPropertyView { name: self.name@, value: self.value@, span: self.span@ }
    }
}

} // verus!
