//! The contract every event fed into the state machine must satisfy.
use vstd::prelude::*;

verus! {

/// Abstracts the common functionality all state events must offer: the
/// engine only ever needs a displayable name for diagnostics, nothing more.
pub trait StateEventTrait: Sized {
    /// A human-readable name for the event, used in error payloads.
    fn get_event_name(&self) -> String;
}

} // verus!
