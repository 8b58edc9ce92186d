//! Error types reported by the engine, the hierarchy map and the delegates.
use vstd::prelude::*;

verus! {

/// Result alias used throughout the crate: the error side carries the
/// consumer's state enumeration so callers see states, not raw ids.
pub type HSMResult<T, States> = Result<T, HSMError<States>>;

/// Everything that can go wrong while building or driving the state machine.
///
/// Build-time variants (`AddDuplicateStateId`, `MultipleTopState`,
/// `MapValidationError`) abort construction; runtime variants are returned
/// from `dispatch_event` and friends.
#[derive(Debug)]
pub enum HSMError<StateT> {
    /// A state with this id was registered twice.
    AddDuplicateStateId(StateT, u16),
    /// An event reached code that cannot handle it.
    EventNotImplemented(String),
    /// A state-related API was called before `init`.
    EngineNotInitialized(),
    /// A failure that fits no other variant; the payload says what happened.
    GenericError(String),
    /// A parent id recorded in the hierarchy does not resolve to a live
    /// state: an internal-invariant violation that build-time validation
    /// should have made impossible.
    ImpossibleStateMismatch(StateT, StateT),
    /// The id does not belong to any registered state; the string names the
    /// operation that rejected it.
    InvalidStateId(StateT, String),
    /// The least common ancestor of a state with itself was requested.
    LCAOfSameNode(),
    /// The relationship between states failed validation.
    MapValidationError(String),
    /// A second transition was requested while one was already accepted
    /// during the same dispatch: (newly requested state, current state,
    /// name of the event being handled).
    MultipleConcurrentChangeState(StateT, StateT, String),
    /// A second state was registered without a parent after the top state
    /// was already fixed: (top name, top id, offending name, offending id).
    MultipleTopState(String, u16, String, u16),
}

/// Failures a state can see when talking to its delegate.
#[derive(Debug, PartialEq, Eq, Structural, Clone, Copy)]
pub enum DelegateError {
    /// The engine side of the mailbox is gone.
    DelegateNotConnected,
}

} // verus!
