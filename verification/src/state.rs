//! The contract for an individual state and the token used to refer to one.
use vstd::prelude::*;

use crate::state_data_delegate::StateDataDelegate;

verus! {

/// All valid definitions of a 'class' of states must satisfy this contract.
/// By enforcing these characteristics, the engine can translate between its
/// numeric tokens and the true state typing provided by the consumer.
///
/// `from_id` must never fail: an id with no corresponding variant maps to
/// the consumer's designated invalid sentinel.
pub trait StateConstraint: Sized + Clone {
    /// The variant for this numeric id, or the invalid sentinel.
    fn from_id(id: u16) -> Self;

    /// The numeric id of this variant.
    fn to_id(&self) -> u16;

    /// The display name of this variant.
    fn name(&self) -> String;
}

/// An inexpensive token representing a state that can be exchanged for more
/// complex data structures.
#[derive(Eq, Hash, PartialEq, Structural, Clone, Debug, Copy)]
pub struct StateId {
    pub id: u16,
}

impl StateId {
    /// The numeric value this token wraps.
    pub open spec fn id_spec(self) -> u16 {
        self.id
    }

    #[verifier::allow_in_spec]
    pub fn new(state_id: u16) -> Self
        returns
            (StateId { id: state_id }),
    {
        StateId { id: state_id }
    }

    pub fn get_id(&self) -> (r: &u16)
        ensures
            *r == self.id_spec(),
    {
        &self.id
    }
}

/// Definition of what makes a struct/enum a state.
///
/// Implementations must not reach back into the engine from inside a
/// callback; the delegate lent to `handle_event` is the only sanctioned way
/// to request a transition or a follow-up event.
pub trait StateIF<StateT, EventT> {
    /// Called whenever the state is entered, even if only transiently on
    /// the way down to a deeper target.
    fn handle_state_enter(&mut self) {
    }

    /// Called only on the state being settled on at the end of a
    /// transition.
    fn handle_state_start(&mut self) {
    }

    /// Called when transitioning out of the state.
    fn handle_state_exit(&mut self) {
    }

    /// Every state implements this.
    ///
    /// Returns true if the event was fully handled (stop propagation),
    /// false to delegate it to the parent state. Requests for a transition
    /// or a follow-up event go through `delegate`.
    fn handle_event(&mut self, event: &EventT, delegate: &mut StateDataDelegate<EventT>) -> bool;
}

/// How the hierarchy stores the heterogeneous state implementations.
pub type StateBox<StateT, EventT> = Box<dyn StateIF<StateT, EventT>>;

/// One registered state: its token, its parent's token (absent only for the
/// top state) and the consumer's implementation.
#[verifier::reject_recursive_types(StateT)]
#[verifier::reject_recursive_types(EventT)]
pub struct StateContainer<StateT, EventT> {
    pub state_id: StateId,
    pub parent_id: Option<StateId>,
    pub state_ref: StateBox<StateT, EventT>,
}

impl<StateT, EventT> StateContainer<StateT, EventT> {
    pub fn new(state_id: StateId, parent_id: Option<StateId>, state_ref: StateBox<
        StateT,
        EventT,
    >) -> (r: Self)
        ensures
            r.state_id == state_id,
            r.parent_id == parent_id,
    {
        StateContainer { state_ref, state_id, parent_id }
    }
}

} // verus!
