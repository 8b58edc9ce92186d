//! The interface through which a state wields the engine's powers: while
//! the engine knows the states, the states only ever see this narrow
//! delegating surface, never the engine itself.
use vstd::prelude::*;

use crate::errors::DelegateError;
use crate::state_data_delegate::StateDataDelegate;

verus! {

/// A valid object delegating powers of the engine to others (states).
/// Lets states talk to the state machine while the state machine owns the
/// states, without a direct reference back into the engine.
pub trait EngineDelegateIF<EventT> {
    /// Command the state machine to change state while handling an event.
    fn change_state(&mut self, new_state: u16) -> Result<(), DelegateError>;

    /// Command the state machine to handle another event. Called while an
    /// event is being handled, it is queued until the current one
    /// completes; queued requests are served first-in first-out.
    fn internal_handle_event(&mut self, event: EventT) -> Result<(), DelegateError>;
}

impl<EventT> EngineDelegateIF<EventT> for StateDataDelegate<EventT> {
    fn change_state(&mut self, new_state: u16) -> Result<(), DelegateError> {
        self.submit_state_change_request(new_state)
    }

    fn internal_handle_event(&mut self, event: EventT) -> Result<(), DelegateError> {
        self.dispatch_event_internally(event)
    }
}

} // verus!
