use vstd::prelude::*;

verus! {

/// The palette that entities and log entries are drawn with.
#[derive(Clone, Copy, Debug, PartialEq, Eq, Structural)]
pub enum Color {
    White,
    Red,
    DarkRed,
    Orange,
    Yellow,
    LightYellow,
    Green,
    LightGreen,
    DesaturatedGreen,
    DarkerGreen,
    LightCyan,
    LightBlue,
    Sky,
    Violet,
    LightViolet,
}

impl Color {
    pub open spec fn spec_rgb(self) -> (u8, u8, u8) {
        match self {
            Color::White => (255, 255, 255),
            Color::Red => (255, 0, 0),
            Color::DarkRed => (191, 0, 0),
            Color::Orange => (255, 127, 0),
            Color::Yellow => (255, 255, 0),
            Color::LightYellow => (255, 255, 63),
            Color::Green => (0, 255, 0),
            Color::LightGreen => (63, 255, 63),
            Color::DesaturatedGreen => (63, 127, 63),
            Color::DarkerGreen => (0, 127, 0),
            Color::LightCyan => (63, 255, 255),
            Color::LightBlue => (63, 63, 255),
            Color::Sky => (0, 191, 255),
            Color::Violet => (127, 0, 255),
            Color::LightViolet => (159, 63, 255),
        }
    }

    /// The red, green and blue components of the colour.
    pub fn rgb(&self) -> (c: (u8, u8, u8))
        ensures
            c == self.spec_rgb(),
    {
        match self {
            Color::White => (255, 255, 255),
            Color::Red => (255, 0, 0),
            Color::DarkRed => (191, 0, 0),
            Color::Orange => (255, 127, 0),
            Color::Yellow => (255, 255, 0),
            Color::LightYellow => (255, 255, 63),
            Color::Green => (0, 255, 0),
            Color::LightGreen => (63, 255, 63),
            Color::DesaturatedGreen => (63, 127, 63),
            Color::DarkerGreen => (0, 127, 0),
            Color::LightCyan => (63, 255, 255),
            Color::LightBlue => (63, 63, 255),
            Color::Sky => (0, 191, 255),
            Color::Violet => (127, 0, 255),
            Color::LightViolet => (159, 63, 255),
        }
    }
}

} // verus!
