use crate::draw::color::Color;
use vstd::prelude::*;

verus! {

/// A brush used to paint draw commands.
#[derive(Debug, Clone, PartialEq, Eq)]
pub enum Brush {
    /// Paints with a solid color.
    SolidColor(Color),
}

} // verus!
