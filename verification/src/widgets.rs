//! The widgets a container can hold: buttons and labels.
use vstd::prelude::*;
use vstd::utf8::encode_utf8;
use crate::color::Color;

verus! {

/// A point of the window, in pixels from its top-left corner.
#[derive(Clone, Copy, Debug, PartialEq, Eq, Structural)]
pub struct Point {
    pub x: i16,
    pub y: i16,
}

/// How a container lays out its children.
#[derive(Debug, Clone, Copy, PartialEq, Eq, Structural)]
pub enum ContainerType {
    Vertical,
    Horizontal,
}

/// The byte length of a text, cast to `i16` as the layout code does (the
/// cast keeps the low 16 bits).
pub open spec fn text_len_i16(text: Seq<char>) -> i16 {
    (encode_utf8(text).len() as usize) as i16
}

/// Whether `v` is a value of `i16`.
pub open spec fn fits_i16(v: int) -> bool {
    i16::MIN <= v <= i16::MAX
}

/// A clickable button: a closed outline of five points (the last repeats
/// the first), a text, and the message it delivers when clicked.
pub struct Button<Message> {
    pub id: u128,
    pub text: String,
    pub points: [Point; 5],
    pub message: Message,
    pub hover: bool,
    pub foreground_color: Option<Color>,
    pub background_color: Option<Color>,
    pub border: u32,
    pub border_color: Option<Color>,
}

impl<Message> Button<Message> {
    /// Whether the point `(x, y)` lies in the closed rectangle spanned by the
    /// top-left corner `points[0]` and the bottom-right corner `points[2]`.
    pub open spec fn covers(&self, x: int, y: int) -> bool {
        &&& x >= self.points[0].x
        &&& y >= self.points[0].y
        &&& x <= self.points[2].x
        &&& y <= self.points[2].y
    }

    /// Whether an event at `(event_x, event_y)` falls on the button.
    pub fn is_button_interacted(&self, event_x: i16, event_y: i16) -> (hit: bool)
        ensures
            hit == self.covers(event_x as int, event_y as int),
    {
        if event_x >= self.points[0].x && event_y >= self.points[0].y && event_x
            <= self.points[2].x && event_y <= self.points[2].y {
            return true;
        }
        return false;
    }

    /// Marks the button as reacting to the pointer hovering over it.
    pub fn hover(&mut self) -> (this: &mut Button<Message>)
        ensures
            this.hover,
            this.id == old(self).id,
            this.text == old(self).text,
            this.points == old(self).points,
            this.message == old(self).message,
            this.foreground_color == old(self).foreground_color,
            this.background_color == old(self).background_color,
            this.border == old(self).border,
            this.border_color == old(self).border_color,
            *final(self) == *final(this),
    {
        self.hover = true;
        self
    }

    /// Paints the button's background with `color`.
    pub fn set_background_color(&mut self, color: Color) -> (this: &mut Button<Message>)
        ensures
            this.background_color == Some(color),
            this.id == old(self).id,
            this.text == old(self).text,
            this.points == old(self).points,
            this.message == old(self).message,
            this.hover == old(self).hover,
            this.foreground_color == old(self).foreground_color,
            this.border == old(self).border,
            this.border_color == old(self).border_color,
            *final(self) == *final(this),
    {
        self.background_color = Some(color);
        self
    }

    /// Paints the button's text with `color`.
    pub fn set_foreground_color(&mut self, color: Color) -> (this: &mut Button<Message>)
        ensures
            this.foreground_color == Some(color),
            this.id == old(self).id,
            this.text == old(self).text,
            this.points == old(self).points,
            this.message == old(self).message,
            this.hover == old(self).hover,
            this.background_color == old(self).background_color,
            this.border == old(self).border,
            this.border_color == old(self).border_color,
            *final(self) == *final(this),
    {
        self.foreground_color = Some(color);
        self
    }

    /// Sets the width of the button's border.
    pub fn set_border(&mut self, border_size: u32) -> (this: &mut Button<Message>)
        ensures
            this.border == border_size,
            this.id == old(self).id,
            this.text == old(self).text,
            this.points == old(self).points,
            this.message == old(self).message,
            this.hover == old(self).hover,
            this.foreground_color == old(self).foreground_color,
            this.background_color == old(self).background_color,
            this.border_color == old(self).border_color,
            *final(self) == *final(this),
    {
        self.border = border_size;
        self
    }

    /// Sets the color of the button's border.
    pub fn set_border_color(&mut self, border_color: Color) -> (this: &mut Button<Message>)
        ensures
            this.border_color == Some(border_color),
            this.id == old(self).id,
            this.text == old(self).text,
            this.points == old(self).points,
            this.message == old(self).message,
            this.hover == old(self).hover,
            this.foreground_color == old(self).foreground_color,
            this.background_color == old(self).background_color,
            this.border == old(self).border,
            *final(self) == *final(this),
    {
        self.border_color = Some(border_color);
        self
    }

    /// Whether the button has a background color and it is `background_color`.
    pub fn is_background_color_match(&self, background_color: &Color) -> (m: bool)
        ensures
            m == (self.background_color == Some(*background_color)),
    {
        if let Some(button_background_color) = &self.background_color {
            if *background_color == *button_background_color {
                return true;
            }
        }
        false
    }

    /// Whether the button has a text color and it is `foreground_color`.
    pub fn is_foreground_color_match(&self, foreground_color: &Color) -> (m: bool)
        ensures
            m == (self.foreground_color == Some(*foreground_color)),
    {
        if let Some(button_foreground_color) = &self.foreground_color {
            if *foreground_color == *button_foreground_color {
                return true;
            }
        }
        false
    }
}

/// A line of text placed in a container.  The text occupies the box from
/// `(begin_x, begin_y)` to `(end_x, end_y)`.
pub struct Label {
    pub id: u128,
    pub text: String,
    pub begin_x: i16,
    pub begin_y: i16,
    pub end_x: i16,
    pub end_y: i16,
    pub text_color: u32,
}

/// Pixels per byte of label text.
pub open spec fn label_char_width() -> int {
    6
}

/// Height of a label in pixels.
pub open spec fn label_height() -> int {
    15
}

/// Whether a label with text `text` can be placed at `(x, y)` without the
/// arithmetic of its extent overflowing.
pub open spec fn label_fits(text: Seq<char>, x: int, y: int) -> bool {
    &&& fits_i16(text_len_i16(text) * label_char_width())
    &&& fits_i16(x + text_len_i16(text) * label_char_width())
    &&& fits_i16(y + label_height())
}

impl Label {
    /// A label showing `text` with its top-left corner at `(x, y)`: six
    /// pixels wide per byte of text and fifteen pixels high.
    pub fn new(id: u128, text: &str, x: i16, y: i16, text_color: u32) -> (label: Self)
        requires
            label_fits(text@, x as int, y as int),
        ensures
            label.id == id,
            label.text@ == text@,
            label.begin_x == x,
            label.begin_y == y,
            label.end_x == x + text_len_i16(text@) * label_char_width(),
            label.end_y == y + label_height(),
            label.text_color == text_color,
    {
        let length = text.len() as i16 * 6;
        let height: i16 = 15;
        Self {
            id,
            text: text.to_owned(),
            begin_x: x,
            begin_y: y,
            end_x: x + length,
            end_y: y + height,
            text_color,
        }
    }
}

} // verus!
