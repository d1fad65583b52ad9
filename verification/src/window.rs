//! The window the widgets are shown in.
use vstd::prelude::*;
use crate::color::Color;

verus! {

/// An X resource id of a window.
pub type Window = u32;

/// An X resource id of a font.
pub type Font = u32;

/// An X resource id of a graphics context.
pub type Gcontext = u32;

/// A window together with the connection it was created on and the colors
/// it is painted with.
pub struct XWindow<C> {
    pub connection: C,
    pub screen_number: usize,
    pub window_id: Window,
    pub font_id: Font,
    pub background_color: Color,
    pub foreground_color: Color,
}

impl<C> XWindow<C> {
    /// A window on `connection` with no font opened yet (font id 0).
    pub fn new(
        connection: C,
        screen_number: usize,
        window_id: Window,
        background_color: Color,
        foreground_color: Color,
    ) -> (w: Self)
        ensures
            w.connection == connection,
            w.screen_number == screen_number,
            w.window_id == window_id,
            w.font_id == 0,
            w.background_color == background_color,
            w.foreground_color == foreground_color,
    {
        Self {
            connection,
            screen_number,
            window_id,
            font_id: 0,
            background_color,
            foreground_color,
        }
    }
}

/// The text color that goes with a window background: black on white,
/// white on black, and black on every other color.
pub open spec fn contrasting_color(background: Color) -> Color {
    match background {
        Color::White => Color::Black,
        Color::Black => Color::White,
        _ => Color::Black,
    }
}

/// The background and foreground colors of a new window whose background
/// is `background_color`.
pub fn init_window_colors<C>(
    connection: &C,
    screen_number: usize,
    background_color: Color,
) -> (colors: (Color, Color))
    ensures
        colors.0 == background_color,
        colors.1 == contrasting_color(background_color),
{
    let foreground_color = match background_color {
        Color::White => Color::Black,
        Color::Black => Color::White,
        _ => Color::Black,
    };
    (background_color, foreground_color)
}

/// The foreground of a window always differs from its background.
pub proof fn lemma_foreground_contrasts(background: Color)
    ensures
        contrasting_color(background) != background,
{
}

} // verus!
