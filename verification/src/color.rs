//! Device colors.

use vstd::prelude::*;

verus! {

/// Three 8-bit channel intensities in the order the light grid expects:
/// red, green, blue.
#[derive(Clone, Copy, Debug, PartialEq, Eq, Structural)]
pub struct Color {
    pub red: u8,
    pub green: u8,
    pub blue: u8,
}

impl Color {
    /// The color with all channels off.
    pub open spec fn black() -> Color {
        Color { red: 0, green: 0, blue: 0 }
    }

    /// Builds a color from its three channels.
    pub fn new(red: u8, green: u8, blue: u8) -> (c: Color)
        ensures
            c == (Color { red, green, blue }),
    {
        Color { red, green, blue }
    }

    /// True when every channel is zero.
    pub fn is_black(&self) -> (b: bool)
        ensures
            b == (*self == Color::black()),
    {
        self.red == 0 && self.green == 0 && self.blue == 0
    }
}

} // verus!
