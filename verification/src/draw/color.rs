use vstd::prelude::*;

verus! {

/// An 8-bit-per-channel RGBA color.
#[derive(Debug, Clone, Copy, PartialEq, Eq, Hash)]
pub struct Color {
    pub red: u8,
    pub green: u8,
    pub blue: u8,
    pub alpha: u8,
}

impl Color {
    /// Creates a color from its red, green, blue and alpha channels.
    pub fn rgba(red: u8, green: u8, blue: u8, alpha: u8) -> (color: Self)
        ensures
            color == (Color { red, green, blue, alpha }),
    {
        Color { red, green, blue, alpha }
    }
}

} // verus!
