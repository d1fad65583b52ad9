//! The interface an application implements to be shown by the toolkit.
use vstd::prelude::*;
use crate::layout::WidgetContainer;

verus! {

/// An application in the model-view-update style: it builds its widget tree
/// from its state, and changes its state when a button delivers a message.
pub trait Elm {
    /// What a button delivers when it is clicked.
    type Message;

    /// The widget tree that shows the current state.
    fn view(&self) -> WidgetContainer<Self::Message>;

    /// Reacts to `message`; returns whether the window must be cleared
    /// before the new widget tree is painted.
    fn update(&mut self, message: &Self::Message) -> bool;
}

} // verus!
