//! The per-state delegate: the one-way mailbox through which a state, while
//! handling an event, asks the engine to change state or to process a
//! follow-up event.
//!
//! The request cannot be submitted to the engine directly: the engine is
//! already mutably in use while a state's `handle_event` runs, and letting
//! the state call back into it would require a second, conflicting mutable
//! access. Instead the engine lends each state this mailbox for the
//! duration of the call and reaps the queued commands, in arrival order,
//! once the handler walk is complete.
use vstd::prelude::*;

use crate::errors::DelegateError;
use crate::state::StateId;

verus! {

/// A command queued by a state for the engine to consume after the current
/// handler walk: either a transition request or a follow-up event, each
/// tagged with the state that produced it.
pub enum PendingCommand<EventT> {
    /// (requesting state, target state).
    RequestTransition(StateId, StateId),
    /// (requesting state, event to dispatch once the current one is done).
    RequestEvent(StateId, EventT),
}

/// The follow-up events requested by a command sequence, oldest first.
pub open spec fn cmd_events<EventT>(cmds: Seq<PendingCommand<EventT>>) -> Seq<EventT>
    decreases cmds.len(),
{
    if cmds.len() == 0 {
        Seq::empty()
    } else {
        let rest = cmd_events(cmds.drop_last());
        match cmds.last() {
            PendingCommand::RequestEvent(_, e) => rest.push(e),
            PendingCommand::RequestTransition(_, _) => rest,
        }
    }
}

/// No transition request sits at an index in `[a, b)`.
pub open spec fn no_transition_in<EventT>(
    cmds: Seq<PendingCommand<EventT>>,
    a: int,
    b: int,
) -> bool {
    forall|k: int| a <= k < b ==> !((#[trigger] cmds[k]) is RequestTransition)
}

/// `k` is the position of the first transition request in `cmds`.
pub open spec fn first_transition_at<EventT>(cmds: Seq<PendingCommand<EventT>>, k: int) -> bool {
    &&& 0 <= k < cmds.len()
    &&& cmds[k] is RequestTransition
    &&& no_transition_in(cmds, 0, k)
}

/// `m` is the position of the second transition request in `cmds`, the
/// first one sitting at `k`.
pub open spec fn second_transition_at<EventT>(
    cmds: Seq<PendingCommand<EventT>>,
    k: int,
    m: int,
) -> bool {
    &&& k < m < cmds.len()
    &&& cmds[m] is RequestTransition
    &&& no_transition_in(cmds, k + 1, m)
}

/// Mailbox bound to exactly one state id. The engine mints one per
/// registered state and lends it to that state's `handle_event`.
pub struct StateDataDelegate<EventT> {
    state_id: StateId,
    commands: Vec<PendingCommand<EventT>>,
}

impl<EventT> StateDataDelegate<EventT> {
    /// The id of the state this delegate acts for.
    pub closed spec fn bound_state(self) -> StateId {
        self.state_id
    }

    /// The commands queued so far, oldest first.
    pub closed spec fn commands_seq(self) -> Seq<PendingCommand<EventT>> {
        self.commands@
    }

    pub(crate) fn new(state_id: StateId) -> (r: Self)
        ensures
            r.bound_state() == state_id,
            r.commands_seq() =~= Seq::<PendingCommand<EventT>>::empty(),
    {
        StateDataDelegate { state_id, commands: Vec::new() }
    }

    /// Stores a request to change state. The engine reaps the request once
    /// it is done with its current processing; until then the request just
    /// sits in the queue. Never fails while the engine is lending out the
    /// delegate, since the receiving end is then alive by construction.
    pub fn submit_state_change_request(&mut self, new_state: u16) -> (r: Result<
        (),
        DelegateError,
    >)
        ensures
            r is Ok,
            final(self).bound_state() == old(self).bound_state(),
            final(self).commands_seq() =~= old(self).commands_seq().push(
                PendingCommand::RequestTransition(old(self).bound_state(), StateId::new(new_state)),
            ),
    {
        let requester = self.state_id;
        self.commands.push(PendingCommand::RequestTransition(requester, StateId::new(new_state)));
        Ok(())
    }

    /// Queues an event to be dispatched once the engine has finished with
    /// the event currently being handled. Queued events are processed in
    /// first-in, first-out order. Never fails while the engine is lending
    /// out the delegate.
    pub fn dispatch_event_internally(&mut self, event: EventT) -> (r: Result<(), DelegateError>)
        ensures
            r is Ok,
            final(self).bound_state() == old(self).bound_state(),
            final(self).commands_seq() =~= old(self).commands_seq().push(
                PendingCommand::RequestEvent(old(self).bound_state(), event),
            ),
    {
        let requester = self.state_id;
        self.commands.push(PendingCommand::RequestEvent(requester, event));
        Ok(())
    }

    /// Hands the queued commands to the engine, leaving the mailbox empty.
    pub(crate) fn take_commands(&mut self) -> (r: Vec<PendingCommand<EventT>>)
        ensures
            r@ =~= old(self).commands_seq(),
            final(self).bound_state() == old(self).bound_state(),
            final(self).commands_seq() =~= Seq::<PendingCommand<EventT>>::empty(),
    {
        let mut out: Vec<PendingCommand<EventT>> = Vec::new();
        std::mem::swap(&mut out, &mut self.commands);
        out
    }
}

} // verus!
