//! How the event loop reacts to input events.
//!
//! The program that owns the X connection waits for events, hands each one
//! to `handle_event` together with the id of the button currently under the
//! pointer, and carries out the reaction it gets back.
use vstd::prelude::*;
use crate::hit::first_hit;
use crate::layout::WidgetContainer;

verus! {

/// An input event, reduced to what the event loop looks at.
pub enum InputEvent {
    /// Part of the window must be repainted.
    Expose,
    /// A key was pressed.
    KeyPress,
    /// The pointer moved to `(event_x, event_y)`.
    MotionNotify { event_x: i16, event_y: i16 },
    /// Pointer button `detail` was pressed at `(event_x, event_y)`.
    ButtonPress { detail: u8, event_x: i16, event_y: i16 },
    /// A client message in `format` for `window`, whose first 32-bit datum
    /// is `first_datum`.
    ClientMessage { format: u8, window: u32, first_datum: u32 },
    /// Any other event.
    Other,
}

/// What the event loop does in response to an event.
pub enum Reaction<'a, M> {
    /// Nothing.
    Nothing,
    /// Repaint the widgets.
    Redraw,
    /// Hand `message` to the application, then rebuild and repaint the
    /// widgets.
    Deliver(&'a M),
    /// Report a right click.
    RightClick,
    /// Report a scroll up.
    ScrollUp,
    /// Report a scroll down.
    ScrollDown,
    /// Leave the event loop.
    Close,
}

/// The id of the button under the pointer after it moves to `(x, y)`: the
/// id of the button found there, or 0 when there is none.
pub open spec fn hover_after<M>(c: WidgetContainer<M>, x: int, y: int) -> u128 {
    match first_hit(c, x, y) {
        Some(b) => b.id,
        None => 0,
    }
}

/// Moving the pointer to `(x, y)` asks for a repaint exactly when the
/// hovered id changes.
pub open spec fn motion_redraws<M>(c: WidgetContainer<M>, hovered: u128, x: int, y: int) -> bool {
    hover_after(c, x, y) != hovered
}

/// Decides the reaction to `event` and the id of the button under the
/// pointer afterwards (0 for none).  Moving onto a button other than the
/// hovered one, or off all buttons while one was hovered, asks for a
/// repaint; a left click on a button delivers its message; a client message
/// in format 32 for `window_id` carrying `delete_atom` closes the window.
pub fn handle_event<'a, M>(
    container: &'a WidgetContainer<M>,
    button_hovered_id: u128,
    event: &InputEvent,
    window_id: u32,
    delete_atom: u32,
) -> (outcome: (u128, Reaction<'a, M>))
    ensures
        match *event {
            InputEvent::Expose => outcome.0 == button_hovered_id && outcome.1 is Redraw,
            InputEvent::MotionNotify { event_x, event_y } => {
                &&& outcome.0 == hover_after(*container, event_x as int, event_y as int)
                &&& motion_redraws(*container, button_hovered_id, event_x as int, event_y as int) ==> outcome.1 is Redraw
                &&& !motion_redraws(*container, button_hovered_id, event_x as int, event_y as int) ==> outcome.1 is Nothing
            },
            InputEvent::ButtonPress { detail, event_x, event_y } => outcome.0 == button_hovered_id
                && if detail == 1 {
                match first_hit(*container, event_x as int, event_y as int) {
                    Some(b) => outcome.1 matches Reaction::Deliver(msg) && *msg == b.message,
                    None => outcome.1 is Nothing,
                }
            } else if detail == 3 {
                outcome.1 is RightClick
            } else if detail == 4 {
                outcome.1 is ScrollUp
            } else if detail == 5 {
                outcome.1 is ScrollDown
            } else {
                outcome.1 is Nothing
            },
            InputEvent::ClientMessage { format, window, first_datum } => outcome.0
                == button_hovered_id && if format == 32 && window == window_id && first_datum
                == delete_atom {
                outcome.1 is Close
            } else {
                outcome.1 is Nothing
            },
            _ => outcome.0 == button_hovered_id && outcome.1 is Nothing,
        },
{
    match event {
        InputEvent::Expose => (button_hovered_id, Reaction::Redraw),
        InputEvent::KeyPress => (button_hovered_id, Reaction::Nothing),
        InputEvent::MotionNotify { event_x, event_y } => {
            if let Some(button) = container.is_widget_interacted(*event_x, *event_y) {
                if button.id != button_hovered_id {
                    (button.id, Reaction::Redraw)
                } else {
                    (button_hovered_id, Reaction::Nothing)
                }
            } else {
                if button_hovered_id != 0 {
                    (0, Reaction::Redraw)
                } else {
                    (button_hovered_id, Reaction::Nothing)
                }
            }
        },
        InputEvent::ButtonPress { detail, event_x, event_y } => {
            match *detail {
                1 => {
                    if let Some(button) = container.is_widget_interacted(*event_x, *event_y) {
                        (button_hovered_id, Reaction::Deliver(&button.message))
                    } else {
                        (button_hovered_id, Reaction::Nothing)
                    }
                },
                3 => (button_hovered_id, Reaction::RightClick),
                4 => (button_hovered_id, Reaction::ScrollUp),
                5 => (button_hovered_id, Reaction::ScrollDown),
                _ => (button_hovered_id, Reaction::Nothing),
            }
        },
        InputEvent::ClientMessage { format, window, first_datum } => {
            if *format == 32 && *window == window_id && *first_datum == delete_atom {
                (button_hovered_id, Reaction::Close)
            } else {
                (button_hovered_id, Reaction::Nothing)
            }
        },
        InputEvent::Other => (button_hovered_id, Reaction::Nothing),
    }
}


/// Hover tracking settles: once the pointer has moved to a place, moving it
/// there again asks for no repaint.
pub proof fn lemma_motion_settles<M>(c: WidgetContainer<M>, x: int, y: int)
    ensures
        !motion_redraws(c, hover_after(c, x, y), x, y),
{
}


/// Moving the pointer onto a button makes that button the hovered one and
/// asks for a repaint exactly when it was not already hovered; moving it
/// off all buttons makes no button hovered (id 0) and asks for a repaint
/// exactly when one was.  In particular, moving from one button straight
/// onto another with a different id asks for a repaint.
pub proof fn lemma_motion_hover_and_repaint<M>(c: WidgetContainer<M>, hovered: u128, x: int, y: int)
    ensures
        match first_hit(c, x, y) {
            Some(b) => hover_after(c, x, y) == b.id && (motion_redraws(c, hovered, x, y) <==> b.id
                != hovered),
            None => hover_after(c, x, y) == 0 && (motion_redraws(c, hovered, x, y) <==> hovered
                != 0),
        },
{
}

/// Moving between two points whose buttons have different ids asks for a
/// repaint.
pub proof fn lemma_moving_between_buttons_repaints<M>(
    c: WidgetContainer<M>,
    x1: int,
    y1: int,
    x2: int,
    y2: int,
)
    requires
        first_hit(c, x1, y1) is Some,
        first_hit(c, x2, y2) is Some,
        first_hit(c, x1, y1)->0.id != first_hit(c, x2, y2)->0.id,
    ensures
        motion_redraws(c, hover_after(c, x1, y1), x2, y2),
{
}

} // verus!
