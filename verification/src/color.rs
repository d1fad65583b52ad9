//! The fixed palette that windows and widgets are painted with.
use vstd::prelude::*;

verus! {

/// Number of colors in the palette.
pub const COLORS: usize = 9;

/// A color of the palette.
#[derive(Clone, Copy, Debug, PartialEq, Eq, Structural)]
pub enum Color {
    Black,
    White,
    Red,
    Green,
    Blue,
    Cyan,
    Yellow,
    Orange,
    Purple,
}

/// The color at position `index` of the palette; positions past the end
/// give black.
pub open spec fn color_at(index: int) -> Color {
    if index == 0 {
        Color::Black
    } else if index == 1 {
        Color::White
    } else if index == 2 {
        Color::Red
    } else if index == 3 {
        Color::Green
    } else if index == 4 {
        Color::Blue
    } else if index == 5 {
        Color::Cyan
    } else if index == 6 {
        Color::Yellow
    } else if index == 7 {
        Color::Orange
    } else if index == 8 {
        Color::Purple
    } else {
        Color::Black
    }
}

/// The position of a color in the palette.
pub open spec fn palette_index(c: Color) -> int {
    match c {
        Color::Black => 0,
        Color::White => 1,
        Color::Red => 2,
        Color::Green => 3,
        Color::Blue => 4,
        Color::Cyan => 5,
        Color::Yellow => 6,
        Color::Orange => 7,
        Color::Purple => 8,
    }
}

/// The 24-bit RGB value of a color.
pub open spec fn rgb(c: Color) -> u32 {
    match c {
        Color::Black => 0x000000,
        Color::White => 0xffffff,
        Color::Red => 0xff0000,
        Color::Green => 0x00ff00,
        Color::Blue => 0x0000ff,
        Color::Cyan => 0x00ffff,
        Color::Yellow => 0xffff00,
        Color::Orange => 0xffa500,
        Color::Purple => 0x800080,
    }
}

impl Color {
    /// The color at position `index` of the palette (black past the end).
    pub fn get(index: usize) -> (c: Color)
        ensures
            c == color_at(index as int),
    {
        match index {
            0 => Color::Black,
            1 => Color::White,
            2 => Color::Red,
            3 => Color::Green,
            4 => Color::Blue,
            5 => Color::Cyan,
            6 => Color::Yellow,
            7 => Color::Orange,
            8 => Color::Purple,
            _ => Color::Black,
        }
    }

    /// The 24-bit RGB value of the color, as the X server expects a pixel.
    pub fn to_hex(&self) -> (hex: u32)
        ensures
            hex == rgb(*self),
    {
        match self {
            Color::Black => 0x0,
            Color::White => 0xffffff,
            Color::Red => 0xff0000,
            Color::Green => 0x00ff00,
            Color::Blue => 0x0000ff,
            Color::Cyan => 0x00ffff,
            Color::Yellow => 0xffff00,
            Color::Orange => 0xffa500,
            Color::Purple => 0x800080,
        }
    }
}

/// Every color sits at exactly one palette position: walking the palette by
/// index finds each color at its own index, and every index below `COLORS`
/// names the color whose index it is.
pub proof fn lemma_palette_round_trip(c: Color, i: int)
    ensures
        color_at(palette_index(c)) == c,
        0 <= palette_index(c) < COLORS,
        0 <= i < COLORS ==> palette_index(color_at(i)) == i,
{
}

/// Distinct colors are painted with distinct RGB values.
pub proof fn lemma_rgb_injective(a: Color, b: Color)
    ensures
        rgb(a) == rgb(b) ==> a == b,
{
}

} // verus!
