//! A small retained-mode widget toolkit for X11 windows.
//!
//! Widgets (buttons and labels) are grouped in nested containers that lay
//! their children out horizontally or vertically.  The library computes the
//! layout, answers hit-testing queries, decides which graphics contexts paint
//! each widget, turns a widget tree into a list of drawing commands, and
//! decides how the event loop reacts to each input event.  Talking to the X
//! server is left to the program that drives the library.
use vstd::prelude::*;

pub mod color;
pub mod widgets;
pub mod layout;
pub mod hit;
pub mod window;
pub mod contexts;
pub mod draw;
pub mod events;
pub mod elm;
pub mod ids;
pub mod calculator;

pub use color::Color;
pub use contexts::GraphicalContextMatrix;
pub use draw::DrawCommand;
pub use elm::Elm;
pub use layout::WidgetContainer;
pub use widgets::{Button, ContainerType, Label, Point};
pub use window::XWindow;

verus! {

} // verus!
