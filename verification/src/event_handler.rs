//! Handlers of application events.
use crate::error::PixuiError;
use vstd::prelude::*;

verus! {

/// What an application event handler is given: the event, which handlers
/// may change for the handlers after them.
pub struct ApplicationEventContext<E> {
    /// The event being handled.
    pub event: E,
}

/// Handles application events of one type.
pub trait ApplicationEventHandler: Send {
    /// The type of event handled.
    type Event;

    /// Handles one event.
    fn handle_event(&mut self, context: &mut ApplicationEventContext<Self::Event>) -> Result<(), PixuiError>;
}

} // verus!
