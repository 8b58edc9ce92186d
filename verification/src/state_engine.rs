//! The orchestration of the state machine: owns the hierarchy, the current
//! state, the dispatch trace and the follow-up event queue, and runs the
//! event-dispatch loop and the transition sequence.
use vstd::prelude::*;

use crate::errors::{HSMError, HSMResult};
use crate::events::StateEventTrait;
use crate::state::{StateBox, StateConstraint, StateId};
use crate::state_data_delegate::{
    cmd_events, first_transition_at, no_transition_in, second_transition_at, PendingCommand,
};
use crate::state_mapping::{
    ids_of, lemma_lca_on_paths, lemma_path_all_registered, lemma_path_basics, lemma_path_ends_top,
    lemma_path_no_dup, lemma_path_suffix, lemma_push_distinct, lemma_valid_gives_wf, on_path_of,
    reverse_ids, sk_chain_ok, sk_distinct, sk_enter_path, sk_exit_path, sk_init_enter_path, sk_lca,
    sk_parent, sk_registered, sk_root_path, sk_valid, sk_wf, Skeleton, StateMapping,
};

verus! {

/// How many internally queued follow-up events one external dispatch may
/// process before the cascade is reported as a runaway instead of being
/// allowed to starve the caller.
pub const FOLLOW_UP_EVENT_LIMIT: usize = 1024;

/// One entry of the dispatch trace: which lifecycle callback was invoked
/// on which state. Emitted in invocation order, once per callback.
#[derive(PartialEq, Eq, Structural, Clone, Copy, Debug)]
pub enum TraceStep {
    Exit(u16),
    Enter(u16),
    Start(u16),
}

/// Exit steps for a sequence of state ids.
pub open spec fn exits_of(p: Seq<u16>) -> Seq<TraceStep> {
    p.map(|i: int, x: u16| TraceStep::Exit(x))
}

/// Enter steps for a sequence of state ids.
pub open spec fn enters_of(p: Seq<u16>) -> Seq<TraceStep> {
    p.map(|i: int, x: u16| TraceStep::Enter(x))
}

/// The trace a completed transition from `c` to `t` leaves behind: exits
/// up to the least common ancestor, enters down to the target, then the
/// start of the target.
pub open spec fn transition_steps(sk: Skeleton, c: u16, t: u16) -> Seq<TraceStep> {
    let l = sk_lca(sk, c, t);
    exits_of(sk_exit_path(sk, c, l)) + enters_of(sk_enter_path(sk, t, l)) + seq![
        TraceStep::Start(t),
    ]
}

/// The trace initialization into `t` leaves behind: every ancestor of the
/// starting state entered top-down, the starting state included, then the
/// start of the starting state.
pub open spec fn init_steps(sk: Skeleton, t: u16) -> Seq<TraceStep> {
    enters_of(sk_init_enter_path(sk, t)) + seq![TraceStep::Start(t)]
}

/// Runs the orchestration of the state machine while considering its
/// hierarchy. The engine owns the states; states talk back only through
/// the delegate mailbox lent to them during their own `handle_event`.
#[verifier::reject_recursive_types(StateT)]
#[verifier::reject_recursive_types(EventT)]
pub struct HSMEngine<StateT, EventT> {
    hsm_name: String,
    /// `None` until `init`; afterwards always a registered state.
    current_state: Option<StateId>,
    state_mapping: StateMapping<StateT, EventT>,
    /// The callbacks fired while handling the event dispatched most
    /// recently, in invocation order.
    dispatch_trace: Vec<TraceStep>,
    /// Events queued by states during a dispatch, handled first-in
    /// first-out once the current event completes.
    pending_events: Vec<EventT>,
}

impl<StateT: StateConstraint, EventT: StateEventTrait> HSMEngine<StateT, EventT> {
    /// The engine's diagnostic name.
    pub closed spec fn name_spec(self) -> Seq<char> {
        self.hsm_name@
    }

    /// The current state's id, if initialized.
    pub closed spec fn current_spec(self) -> Option<u16> {
        match self.current_state {
            Some(s) => Some(s.id),
            None => None,
        }
    }

    /// The hierarchy's shape.
    pub closed spec fn skeleton(self) -> Skeleton {
        self.state_mapping.skeleton()
    }

    /// The designated top state id.
    pub closed spec fn top_spec(self) -> u16 {
        self.state_mapping.top_spec()
    }

    /// The callbacks fired by the most recent dispatch.
    pub closed spec fn trace_spec(self) -> Seq<TraceStep> {
        self.dispatch_trace@
    }

    /// The queued follow-up events, oldest first.
    pub closed spec fn pending_spec(self) -> Seq<EventT> {
        self.pending_events@
    }

    /// The engine's internal invariant: state ids never collide, and once
    /// initialized the hierarchy is well formed and the current state is
    /// registered.
    pub open spec fn inv(self) -> bool {
        &&& sk_distinct(self.skeleton())
        &&& match self.current_spec() {
            Some(c) => sk_wf(self.skeleton(), self.top_spec()) && sk_registered(self.skeleton(), c),
            None => true,
        }
    }

    /// Create an engine with no states and no current state. It must be
    /// populated with `add_state` and brought to life with `init` before
    /// events can be dispatched.
    pub fn new(hsm_name: String, top_state_id: u16) -> (r: Self)
        ensures
            r.inv(),
            r.name_spec() == hsm_name@,
            r.current_spec() is None,
            r.skeleton() =~= Seq::<(u16, Option<u16>)>::empty(),
            r.top_spec() == top_state_id,
            r.trace_spec() =~= Seq::<TraceStep>::empty(),
            r.pending_spec() =~= Seq::<EventT>::empty(),
    {
        HSMEngine {
            hsm_name,
            current_state: None,
            state_mapping: StateMapping::new(StateId::new(top_state_id), Vec::new()),
            dispatch_trace: Vec::new(),
            pending_events: Vec::new(),
        }
    }

    /// Add the relationship between two states based on their ids; the
    /// engine takes ownership of the state implementation. Fails once the
    /// engine is initialized (states are immutable in number after init),
    /// if a second rootless state is registered, if the top state is given
    /// a parent, or if the id is already taken.
    #[verifier::rlimit(100)]
    #[verifier::spinoff_prover]
    pub fn add_state(
        &mut self,
        new_state: StateBox<StateT, EventT>,
        new_state_metadata: u16,
        parent_state: Option<u16>,
    ) -> (r: HSMResult<(), StateT>)
        requires
            old(self).inv(),
        ensures
            final(self).inv(),
            final(self).name_spec() == old(self).name_spec(),
            final(self).current_spec() == old(self).current_spec(),
            final(self).top_spec() == old(self).top_spec(),
            final(self).trace_spec() =~= old(self).trace_spec(),
            final(self).pending_spec() =~= old(self).pending_spec(),
            ({
                let sk = old(self).skeleton();
                let top = old(self).top_spec();
                if old(self).current_spec() is Some {
                    &&& r is Err
                    &&& r->Err_0 is GenericError
                    &&& final(self).skeleton() =~= sk
                } else if parent_state is None && new_state_metadata != top {
                    &&& r is Err
                    &&& r->Err_0 is MultipleTopState
                    &&& final(self).skeleton() =~= sk
                } else if parent_state is Some && new_state_metadata == top {
                    &&& r is Err
                    &&& r->Err_0 is GenericError
                    &&& final(self).skeleton() =~= sk
                } else if sk_registered(sk, new_state_metadata) {
                    &&& r is Err
                    &&& r->Err_0 is AddDuplicateStateId
                    &&& final(self).skeleton() =~= sk
                } else {
                    &&& r is Ok
                    &&& final(self).skeleton() =~= sk.push(
                        (new_state_metadata, match parent_state {
                            Some(p) => Some(p),
                            None => None,
                        }),
                    )
                }
            }),
    {
        if self.current_state.is_some() {
            return Err(
                HSMError::GenericError(
                    "states cannot be added once the engine is initialized".to_owned(),
                ),
            );
        }
        let parent_id: Option<StateId> = match parent_state {
            Some(p) => Some(StateId::new(p)),
            None => None,
        };
        let ghost sk = self.skeleton();
        let r = self.state_mapping.add_state_internal(
            new_state,
            StateId::new(new_state_metadata),
            parent_id,
        );
        proof {
            if r is Ok {
                lemma_push_distinct(sk, new_state_metadata, match parent_state {
                    Some(p) => Some(p),
                    None => None,
                });
            }
        }
        r
    }

    /// Record a callback in the dispatch trace.
    fn update_trace(&mut self, step: TraceStep)
        ensures
            final(self).trace_spec() =~= old(self).trace_spec().push(step),
            final(self).name_spec() == old(self).name_spec(),
            final(self).current_spec() == old(self).current_spec(),
            final(self).skeleton() =~= old(self).skeleton(),
            final(self).top_spec() == old(self).top_spec(),
            final(self).pending_spec() =~= old(self).pending_spec(),
    {
        self.dispatch_trace.push(step);
    }

    /// Forget the previous dispatch's trace.
    fn clear_trace(&mut self)
        ensures
            final(self).trace_spec() =~= Seq::<TraceStep>::empty(),
            final(self).name_spec() == old(self).name_spec(),
            final(self).current_spec() == old(self).current_spec(),
            final(self).skeleton() =~= old(self).skeleton(),
            final(self).top_spec() == old(self).top_spec(),
            final(self).pending_spec() =~= old(self).pending_spec(),
    {
        self.dispatch_trace.clear();
    }

    /// The callbacks fired while handling the most recently dispatched
    /// event, in invocation order: the engine's observable transition
    /// record.
    pub fn get_trace(&self) -> (r: &Vec<TraceStep>)
        ensures
            r@ =~= self.trace_spec(),
    {
        &self.dispatch_trace
    }

    /// The engine's diagnostic name.
    pub fn get_hsm_name(&self) -> (r: String)
        ensures
            r@ == self.name_spec(),
    {
        self.hsm_name.clone()
    }

    /// The consumer's view of the current state. Fails only before `init`.
    pub fn get_current_state(&self) -> (r: HSMResult<StateT, StateT>)
        ensures
            r is Ok <==> self.current_spec() is Some,
            r is Err ==> r->Err_0 is EngineNotInitialized,
    {
        match self.current_state {
            None => Err(HSMError::EngineNotInitialized()),
            Some(s) => Ok(StateT::from_id(s.id)),
        }
    }

    /// The display name the consumer's state enumeration gives this id.
    pub fn get_state_name(&self, state_id: &u16) -> (r: HSMResult<String, StateT>)
        ensures
            r is Ok,
    {
        Ok(StateT::from_id(*state_id).name())
    }

    /// get LCA between a source state and a target state.
    fn find_lca(&self, source_state: StateId, target_state: StateId) -> (r: HSMResult<
        StateId,
        StateT,
    >)
        ensures
            source_state.id == target_state.id ==> (r is Err && r->Err_0 is LCAOfSameNode),
            sk_wf(self.skeleton(), self.top_spec()) ==> ({
                let sk = self.skeleton();
                let s = source_state.id;
                let t = target_state.id;
                if s == t {
                    r is Err && r->Err_0 is LCAOfSameNode
                } else if t == self.top_spec() {
                    r is Err && r->Err_0 is GenericError
                } else if !sk_registered(sk, s) || !sk_registered(sk, t) {
                    r is Err && r->Err_0 is InvalidStateId
                } else {
                    r matches Ok(l) && l.id == sk_lca(sk, s, t)
                }
            }),
    {
        self.state_mapping.find_lca(&source_state, &target_state)
    }

    /// Initializes the state machine: validates the hierarchy, checks the
    /// starting state, then enters every ancestor of the starting state
    /// from the top down (the top included) and starts the starting state.
    /// Required before any dispatch.
    #[verifier::rlimit(100)]
    #[verifier::spinoff_prover]
    pub fn init(&mut self, starting_state: u16) -> (r: HSMResult<(), StateT>)
        requires
            old(self).inv(),
        ensures
            final(self).inv(),
            final(self).name_spec() == old(self).name_spec(),
            final(self).skeleton() =~= old(self).skeleton(),
            final(self).top_spec() == old(self).top_spec(),
            final(self).pending_spec() =~= old(self).pending_spec(),
            ({
                let sk = old(self).skeleton();
                let top = old(self).top_spec();
                if old(self).current_spec() is Some {
                    &&& r is Err
                    &&& r->Err_0 is GenericError
                    &&& final(self).current_spec() == old(self).current_spec()
                    &&& final(self).trace_spec() =~= old(self).trace_spec()
                } else if !sk_valid(sk, top) {
                    &&& r is Err
                    &&& r->Err_0 is MapValidationError
                    &&& final(self).current_spec() is None
                    &&& final(self).trace_spec() =~= old(self).trace_spec()
                } else if !sk_registered(sk, starting_state) {
                    &&& r is Err
                    &&& r->Err_0 is InvalidStateId
                    &&& final(self).current_spec() is None
                    &&& final(self).trace_spec() =~= old(self).trace_spec()
                } else {
                    &&& r is Ok
                    &&& final(self).current_spec() == Some(starting_state)
                    &&& final(self).trace_spec() =~= init_steps(sk, starting_state)
                }
            }),
    {
        if self.current_state.is_some() {
            return Err(HSMError::GenericError("the engine is already initialized".to_owned()));
        }
        self.state_mapping.validate_cross_states()?;

        let initial_state_struct = StateId::new(starting_state);
        if !self.state_mapping.is_state_id_valid(&initial_state_struct) {
            return Err(HSMError::InvalidStateId(StateT::from_id(starting_state), "init".to_owned()));
        }
        proof {
            lemma_valid_gives_wf(self.skeleton(), self.top_spec(), starting_state);
        }
        self.current_state = Some(initial_state_struct);
        self.clear_trace();
        self.enter_states_lca_to_target(initial_state_struct, None)?;
        Ok(())
    }

    /// Enter every state from just below `lca` (or from the very top when
    /// `lca` is `None`, at initialization) down to and including the
    /// target, then start the target.
    #[verifier::rlimit(100)]
    #[verifier::spinoff_prover]
    fn enter_states_lca_to_target(&mut self, target_state_id: StateId, lca: Option<StateId>) -> (r:
        HSMResult<(), StateT>)
        requires
            old(self).inv(),
            sk_wf(old(self).skeleton(), old(self).top_spec()),
            sk_registered(old(self).skeleton(), target_state_id.id),
            lca matches Some(l) ==> on_path_of(old(self).skeleton(), l.id, target_state_id.id),
        ensures
            final(self).inv(),
            r is Ok,
            final(self).name_spec() == old(self).name_spec(),
            final(self).current_spec() == old(self).current_spec(),
            final(self).skeleton() =~= old(self).skeleton(),
            final(self).top_spec() == old(self).top_spec(),
            final(self).pending_spec() =~= old(self).pending_spec(),
            final(self).trace_spec() =~= old(self).trace_spec() + (match lca {
                None => enters_of(sk_init_enter_path(old(self).skeleton(), target_state_id.id)),
                Some(l) => enters_of(
                    sk_enter_path(old(self).skeleton(), target_state_id.id, l.id),
                ),
            }) + seq![TraceStep::Start(target_state_id.id)],
    {
        let ghost sk = self.skeleton();
        let ghost t = target_state_id.id;
        let ghost old_trace = self.trace_spec();
        proof {
            lemma_path_ends_top(sk, self.top_spec(), t);
            lemma_path_all_registered(sk, t);
            lemma_path_basics(sk, t, sk.len() as nat);
        }
        let target_to_lca_path = self.state_mapping.resolve_path_to_root(&target_state_id)?;
        let lca_to_target_path = reverse_ids(&target_to_lca_path);
        let ghost pt = sk_root_path(sk, t);
        let ghost rev = pt.reverse();
        proof {
            assert(ids_of(lca_to_target_path@) =~= ids_of(target_to_lca_path@).reverse());
            assert(ids_of(lca_to_target_path@) =~= rev);
        }

        // Do NOT include the LCA in the enters unless we are going through
        // the top at initialization.
        let start_index: usize = match lca {
            None => 0,
            Some(l) => {
                proof {
                    lemma_path_basics(sk, l.id, sk.len() as nat);
                    let diff = pt.len() - sk_root_path(sk, l.id).len();
                    assert(pt.skip(diff)[0] == pt[diff]);
                    assert(pt[diff] == l.id);
                    assert(sk_registered(sk, l.id));
                    lemma_path_ends_top(sk, self.top_spec(), l.id);
                    lemma_path_all_registered(sk, l.id);
                }
                let lca_path = self.state_mapping.resolve_path_to_root(&l)?;
                lca_path.len()
            },
        };
        let ghost pl_len = start_index as int;
        proof {
            assert(pl_len <= pt.len());
            assert(ids_of(lca_to_target_path@).len() == lca_to_target_path@.len());
            assert(rev.len() == lca_to_target_path@.len());
        }

        let n = lca_to_target_path.len();
        let mut idx: usize = start_index;
        while idx < n
            invariant
                sk == self.skeleton(),
                t == target_state_id.id,
                pt == sk_root_path(sk, t),
                n == lca_to_target_path@.len(),
                n == pt.len(),
                rev == pt.reverse(),
                rev.len() == n,
                ids_of(lca_to_target_path@) =~= rev,
                forall|k: int| 0 <= k < pt.len() ==> sk_registered(sk, #[trigger] pt[k]),
                0 <= pl_len,
                pl_len <= idx <= n,
                self.inv(),
                self.name_spec() == old(self).name_spec(),
                self.current_spec() == old(self).current_spec(),
                self.top_spec() == old(self).top_spec(),
                self.pending_spec() =~= old(self).pending_spec(),
                self.trace_spec() =~= old_trace + enters_of(
                    rev.subrange(pl_len, idx as int),
                ),
            decreases n - idx,
        {
            let entering_state_id = lca_to_target_path[idx];
            proof {
                assert(entering_state_id.id == rev[idx as int]);
                assert(rev[idx as int] == pt[pt.len() - 1 - idx as int]);
                assert(sk_registered(sk, entering_state_id.id));
            }
            match self.state_mapping.handle_state_enter(&entering_state_id) {
                Ok(_) => {},
                Err(e) => {
                    return Err(e);
                },
            }
            self.update_trace(TraceStep::Enter(entering_state_id.id));
            proof {
                assert(pl_len <= idx as int);
                assert((idx as int) < n);
                let sub1 = rev.subrange(pl_len, idx as int + 1);
                let sub0 = rev.subrange(pl_len, idx as int);
                assert(sub1 =~= sub0.push(rev[idx as int]));
                assert(enters_of(sub1) =~= enters_of(sub0).push(
                    TraceStep::Enter(entering_state_id.id),
                ));
                assert(self.trace_spec() =~= old_trace + enters_of(sub1));
            }
            idx = idx + 1;
        }

        // Start the target state.
        match self.state_mapping.handle_state_start(&target_state_id) {
            Ok(_) => {},
            Err(e) => {
                return Err(e);
            },
        }
        self.update_trace(TraceStep::Start(target_state_id.id));
        proof {
            match lca {
                None => {
                    assert(rev.subrange(0, n as int) =~= sk_init_enter_path(sk, t));
                },
                Some(l) => {
                    assert(sk_root_path(sk, l.id).len() == pl_len);
                    let en = sk_enter_path(sk, t, l.id);
                    assert(en.len() == n - pl_len);
                    assert forall|j: int| 0 <= j < n - pl_len implies en[j] == rev[pl_len + j] by {
                        assert(en[j] == pt.take(pt.len() - pl_len)[pt.len() - pl_len - 1 - j]);
                        assert(rev[pl_len + j] == pt[pt.len() - 1 - pl_len - j]);
                    }
                    assert(rev.subrange(pl_len, n as int) =~= en);
                },
            }
        }
        Ok(())
    }

    /// Exit every state from the current one (inclusive) up to the given
    /// ancestor (exclusive), deepest first.
    #[verifier::rlimit(100)]
    #[verifier::spinoff_prover]
    fn exit_states_until_target(&mut self, target_state_id: StateId) -> (r: HSMResult<(), StateT>)
        requires
            old(self).inv(),
            old(self).current_spec() is Some,
            sk_registered(old(self).skeleton(), target_state_id.id),
            on_path_of(
                old(self).skeleton(),
                target_state_id.id,
                old(self).current_spec()->Some_0,
            ),
        ensures
            final(self).inv(),
            r is Ok,
            final(self).name_spec() == old(self).name_spec(),
            final(self).current_spec() == old(self).current_spec(),
            final(self).skeleton() =~= old(self).skeleton(),
            final(self).top_spec() == old(self).top_spec(),
            final(self).pending_spec() =~= old(self).pending_spec(),
            final(self).trace_spec() =~= old(self).trace_spec() + exits_of(
                sk_exit_path(
                    old(self).skeleton(),
                    old(self).current_spec()->Some_0,
                    target_state_id.id,
                ),
            ),
    {
        let ghost sk = self.skeleton();
        let ghost c = self.current_spec()->Some_0;
        let ghost old_trace = self.trace_spec();
        let ghost p = sk_root_path(sk, c);
        let ghost k_lca = p.len() - sk_root_path(sk, target_state_id.id).len();
        let mut current_state_id = match self.current_state {
            Some(s) => s,
            None => {
                return Err(HSMError::EngineNotInitialized());
            },
        };
        proof {
            lemma_path_ends_top(sk, self.top_spec(), c);
            lemma_path_all_registered(sk, c);
            lemma_path_basics(sk, c, sk.len() as nat);
            lemma_path_no_dup(sk, c);
            lemma_path_basics(sk, target_state_id.id, sk.len() as nat);
            assert(p.skip(k_lca) =~= sk_root_path(sk, target_state_id.id));
            assert(p[k_lca] == target_state_id.id);
        }
        let ghost mut k: int = 0;
        while current_state_id.id != target_state_id.id
            invariant
                sk == self.skeleton(),
                c == old(self).current_spec()->Some_0,
                p == sk_root_path(sk, c),
                0 <= k_lca < p.len(),
                p[k_lca] == target_state_id.id,
                0 <= k <= k_lca,
                current_state_id.id == p[k],
                forall|x: int, y: int| 0 <= x < y < p.len() ==> p[x] != p[y],
                forall|j: int| 0 <= j < p.len() - 1 ==> sk_parent(sk, #[trigger] p[j]) == Some(
                    p[j + 1],
                ),
                forall|j: int| 0 <= j < p.len() ==> sk_registered(sk, #[trigger] p[j]),
                self.inv(),
                self.name_spec() == old(self).name_spec(),
                self.current_spec() == old(self).current_spec(),
                self.top_spec() == old(self).top_spec(),
                self.pending_spec() =~= old(self).pending_spec(),
                self.trace_spec() =~= old_trace + exits_of(p.take(k)),
            decreases k_lca - k,
        {
            proof {
                if k == k_lca {
                    assert(current_state_id.id == target_state_id.id);
                }
                assert(k < k_lca);
            }
            match self.state_mapping.handle_state_exit(&current_state_id) {
                Ok(_) => {},
                Err(e) => {
                    return Err(e);
                },
            }
            self.update_trace(TraceStep::Exit(current_state_id.id));
            proof {
                assert(p.take(k + 1) =~= p.take(k).push(p[k]));
                assert(exits_of(p.take(k + 1)) =~= exits_of(p.take(k)).push(
                    TraceStep::Exit(p[k]),
                ));
            }
            let next_state_id = self.state_mapping.get_parent_state_id(&current_state_id);
            match next_state_id {
                Some(nid) => {
                    proof {
                        assert(sk_parent(sk, p[k]) == Some(p[k + 1]));
                        assert(nid.id == p[k + 1]);
                        k = k + 1;
                    }
                    current_state_id = nid;
                },
                None => {
                    proof {
                        assert(sk_parent(sk, p[k]) == Some(p[k + 1]));
                        assert(false);
                    }
                    return Err(HSMError::EngineNotInitialized());
                },
            }
        }
        proof {
            assert(p[k] == p[k_lca]);
            assert(k == k_lca);
            assert(p.take(k_lca) =~= sk_exit_path(sk, c, target_state_id.id));
        }
        Ok(())
    }

    /// Exit all states from the current one up to (but not including) the
    /// least common ancestor with the requested state, enter everything
    /// below the ancestor down to the requested state, start it, and make
    /// it current. A request for the state the engine is already in is a
    /// no-op: no callback fires and nothing changes.
    #[verifier::rlimit(100)]
    #[verifier::spinoff_prover]
    pub fn handle_state_change(&mut self, requested_state: StateId) -> (r: HSMResult<(), StateT>)
        requires
            old(self).inv(),
            old(self).current_spec() is Some,
        ensures
            final(self).inv(),
            final(self).name_spec() == old(self).name_spec(),
            final(self).skeleton() =~= old(self).skeleton(),
            final(self).top_spec() == old(self).top_spec(),
            final(self).pending_spec() =~= old(self).pending_spec(),
            final(self).current_spec() is Some,
            ({
                let sk = old(self).skeleton();
                let top = old(self).top_spec();
                let c = old(self).current_spec()->Some_0;
                let t = requested_state.id;
                if t == c {
                    &&& r is Ok
                    &&& final(self).current_spec() == old(self).current_spec()
                    &&& final(self).trace_spec() =~= old(self).trace_spec()
                } else if !sk_registered(sk, t) {
                    &&& r is Err
                    &&& r->Err_0 is InvalidStateId
                    &&& final(self).current_spec() == old(self).current_spec()
                    &&& final(self).trace_spec() =~= old(self).trace_spec()
                } else if t == top {
                    &&& r is Err
                    &&& r->Err_0 is GenericError
                    &&& final(self).current_spec() == old(self).current_spec()
                    &&& final(self).trace_spec() =~= old(self).trace_spec()
                } else {
                    &&& r is Ok
                    &&& final(self).current_spec() == Some(t)
                    &&& final(self).trace_spec() =~= old(self).trace_spec() + transition_steps(
                        sk,
                        c,
                        t,
                    )
                }
            }),
    {
        let ghost sk = self.skeleton();
        let ghost top = self.top_spec();
        let ghost c = self.current_spec()->Some_0;
        let current = match self.current_state {
            Some(s) => s,
            None => {
                return Err(HSMError::EngineNotInitialized());
            },
        };
        // We do not clear completed requests; a request for the current
        // state is simply a no-op.
        if requested_state.id == current.id {
            return Ok(());
        }
        self.state_mapping.is_state_id_valid_result(&requested_state)?;

        let lca_state_id = self.find_lca(current, requested_state)?;
        proof {
            lemma_lca_on_paths(sk, top, c, requested_state.id);
            lemma_path_basics(sk, c, sk.len() as nat);
            lemma_path_basics(sk, requested_state.id, sk.len() as nat);
            lemma_path_basics(sk, lca_state_id.id, sk.len() as nat);
        }
        if lca_state_id.id != current.id {
            self.exit_states_until_target(lca_state_id)?;
        } else {
            proof {
                let pc = sk_root_path(sk, c);
                assert(sk_root_path(sk, lca_state_id.id).len() == pc.len());
                assert(sk_exit_path(sk, c, lca_state_id.id) =~= pc.take(0));
                assert(exits_of(sk_exit_path(sk, c, lca_state_id.id)) =~= Seq::<
                    TraceStep,
                >::empty());
            }
        }
        self.enter_states_lca_to_target(requested_state, Some(lca_state_id))?;
        self.set_current_state(&requested_state);
        Ok(())
    }

    /// Consume the commands reaped from the delegate after a handler walk,
    /// in arrival order. At most one transition request is honored: a
    /// second one observed in the same dispatch is reported as
    /// `MultipleConcurrentChangeState`. Every requested follow-up event is
    /// appended to the engine's queue, first-in first-out, up to the point
    /// where processing stops.
    #[verifier::rlimit(100)]
    #[verifier::spinoff_prover]
    #[verifier::loop_isolation(false)]
    pub fn process_commands(&mut self, commands: Vec<PendingCommand<EventT>>, event_name: String) -> (r:
        HSMResult<(), StateT>)
        requires
            old(self).inv(),
            old(self).current_spec() is Some,
        ensures
            final(self).inv(),
            final(self).name_spec() == old(self).name_spec(),
            final(self).skeleton() =~= old(self).skeleton(),
            final(self).top_spec() == old(self).top_spec(),
            final(self).current_spec() is Some,
            r is Err ==> !(r->Err_0 is EngineNotInitialized),
            ({
                let sk = old(self).skeleton();
                let top = old(self).top_spec();
                let c = old(self).current_spec()->Some_0;
                let cmds = commands@;
                let n = cmds.len() as int;
                if no_transition_in(cmds, 0, n) {
                    &&& r is Ok
                    &&& final(self).current_spec() == old(self).current_spec()
                    &&& final(self).trace_spec() =~= old(self).trace_spec()
                    &&& final(self).pending_spec() =~= old(self).pending_spec() + cmd_events(cmds)
                } else {
                    forall|k: int| #[trigger]
                        first_transition_at(cmds, k) ==> {
                            let t = (cmds[k]->RequestTransition_1).id;
                            if t != c && !sk_registered(sk, t) {
                                &&& r is Err
                                &&& r->Err_0 is InvalidStateId
                                &&& final(self).current_spec() == old(self).current_spec()
                                &&& final(self).trace_spec() =~= old(self).trace_spec()
                                &&& final(self).pending_spec() =~= old(self).pending_spec()
                                    + cmd_events(cmds.take(k))
                            } else if t != c && t == top {
                                &&& r is Err
                                &&& r->Err_0 is GenericError
                                &&& final(self).current_spec() == old(self).current_spec()
                                &&& final(self).trace_spec() =~= old(self).trace_spec()
                                &&& final(self).pending_spec() =~= old(self).pending_spec()
                                    + cmd_events(cmds.take(k))
                            } else {
                                &&& final(self).current_spec() == Some(if t == c { c } else { t })
                                &&& final(self).trace_spec() =~= (if t == c {
                                    old(self).trace_spec()
                                } else {
                                    old(self).trace_spec() + transition_steps(sk, c, t)
                                })
                                &&& if no_transition_in(cmds, k + 1, n) {
                                    &&& r is Ok
                                    &&& final(self).pending_spec() =~= old(self).pending_spec()
                                        + cmd_events(cmds)
                                } else {
                                    &&& r is Err
                                    &&& r->Err_0 is MultipleConcurrentChangeState
                                    &&& forall|m: int| #[trigger]
                                        second_transition_at(cmds, k, m)
                                            ==> final(self).pending_spec() =~= old(
                                            self,
                                        ).pending_spec() + cmd_events(cmds.take(m))
                                }
                            }
                        }
                }
            }),
    {
        let ghost sk = self.skeleton();
        let ghost top = self.top_spec();
        let ghost c = self.current_spec()->Some_0;
        let ghost cmds = commands@;
        let ghost n = cmds.len() as int;
        let ghost old_pending = self.pending_spec();
        let ghost old_trace = self.trace_spec();
        let mut commands = commands;
        let mut already_changed_state = false;
        let ghost mut i: int = 0;
        let ghost mut ft: int = n;
        while commands.len() > 0
            invariant
                sk == self.skeleton(),
                top == self.top_spec(),
                c == old(self).current_spec()->Some_0,
                n == cmds.len() as int,
                old_pending == old(self).pending_spec(),
                old_trace == old(self).trace_spec(),
                0 <= i <= n,
                commands@ =~= cmds.skip(i),
                self.inv(),
                self.name_spec() == old(self).name_spec(),
                self.skeleton() =~= old(self).skeleton(),
                self.top_spec() == old(self).top_spec(),
                self.current_spec() is Some,
                self.pending_spec() =~= old_pending + cmd_events(cmds.take(i)),
                !already_changed_state ==> {
                    &&& no_transition_in(cmds, 0, i)
                    &&& self.current_spec() == old(self).current_spec()
                    &&& self.trace_spec() =~= old_trace
                },
                already_changed_state ==> {
                    &&& first_transition_at(cmds, ft)
                    &&& ft < i
                    &&& no_transition_in(cmds, ft + 1, i)
                    &&& ({
                        let t = (cmds[ft]->RequestTransition_1).id;
                        &&& (t == c || (sk_registered(sk, t) && t != top))
                        &&& self.current_spec() == Some(if t == c { c } else { t })
                        &&& self.trace_spec() =~= (if t == c {
                            old_trace
                        } else {
                            old_trace + transition_steps(sk, c, t)
                        })
                    })
                },
            decreases n - i,
        {
            let cmd = commands.remove(0);
            proof {
                assert(cmds.skip(i).len() > 0);
                assert(cmd == cmds[i]);
                assert(cmds.skip(i).skip(1) =~= cmds.skip(i + 1));
                assert(cmds.take(i + 1).drop_last() =~= cmds.take(i));
                assert(cmds.take(i + 1).last() == cmds[i]);
            }
            match cmd {
                PendingCommand::RequestTransition(_requesting_state, target) => {
                    if already_changed_state {
                        let current_now = match self.current_state {
                            Some(s) => s.id,
                            None => 0,
                        };
                        proof {
                            assert(second_transition_at(cmds, ft, i));
                            assert forall|m: int| second_transition_at(cmds, ft, m) implies m
                                == i by {
                                if m < i {
                                    assert(!(cmds[m] is RequestTransition));
                                } else if m > i {
                                    assert(!(cmds[i] is RequestTransition));
                                }
                            }
                            assert forall|k: int| first_transition_at(cmds, k) implies k == ft by {
                                if k < ft {
                                    assert(!(cmds[k] is RequestTransition));
                                } else if k > ft {
                                    assert(!(cmds[ft] is RequestTransition));
                                }
                            }
                            assert(cmds[ft as int] is RequestTransition);
                            assert(!no_transition_in(cmds, 0, n));
                            assert(cmd_events(cmds.take(i + 1)) =~= cmd_events(cmds.take(i)));
                        }
                        return Err(
                            HSMError::MultipleConcurrentChangeState(
                                StateT::from_id(target.id),
                                StateT::from_id(current_now),
                                event_name,
                            ),
                        );
                    }
                    already_changed_state = true;
                    let change_result = self.handle_state_change(target);
                    proof {
                        assert(first_transition_at(cmds, i));
                        assert forall|k: int| first_transition_at(cmds, k) implies k == i by {
                            if k < i {
                                assert(!(cmds[k] is RequestTransition));
                            } else if k > i {
                                assert(!(cmds[i] is RequestTransition));
                            }
                        }
                        assert(cmds[i] is RequestTransition);
                        assert(!no_transition_in(cmds, 0, n));
                        assert(cmd_events(cmds.take(i + 1)) =~= cmd_events(cmds.take(i)));
                    }
                    match change_result {
                        Ok(_) => {
                            proof {
                                ft = i;
                            }
                        },
                        Err(e) => {
                            return Err(e);
                        },
                    }
                },
                PendingCommand::RequestEvent(_requesting_state, event) => {
                    proof {
                        assert(cmd_events(cmds.take(i + 1)) =~= cmd_events(cmds.take(i)).push(
                            cmds[i]->RequestEvent_1,
                        ));
                    }
                    self.pending_events.push(event);
                },
            }
            proof {
                i = i + 1;
            }
        }
        proof {
            assert(i == n);
            assert(cmds.take(n) =~= cmds);
            if already_changed_state {
                assert forall|k: int| first_transition_at(cmds, k) implies k == ft by {
                    if k < ft {
                        assert(!(cmds[k] is RequestTransition));
                    } else if k > ft {
                        assert(!(cmds[ft] is RequestTransition));
                    }
                }
                assert(cmds[ft as int] is RequestTransition);
                assert(!no_transition_in(cmds, 0, n));
            }
        }
        Ok(())
    }

    /// Send an event into the state machine from within it: walk the
    /// handler chain from the current state upward until some state
    /// handles the event or the chain is exhausted (an unhandled event is
    /// simply dropped), then reap and process the commands the handlers
    /// queued while being invoked.
    #[verifier::rlimit(100)]
    #[verifier::spinoff_prover]
    fn handle_event_internally(&mut self, event: EventT) -> (r: HSMResult<(), StateT>)
        requires
            old(self).inv(),
            old(self).current_spec() is Some,
        ensures
            final(self).inv(),
            final(self).name_spec() == old(self).name_spec(),
            final(self).skeleton() =~= old(self).skeleton(),
            final(self).top_spec() == old(self).top_spec(),
            final(self).current_spec() is Some,
            r is Err ==> !(r->Err_0 is EngineNotInitialized),
    {
        let ghost sk = self.skeleton();
        let ghost top = self.top_spec();

        // State id is the variable updated each loop.
        let event_start_state_id = match self.current_state {
            Some(s) => s,
            None => {
                proof {
                    assert(false);
                }
                return Err(HSMError::EngineNotInitialized());
            },
        };
        self.clear_trace();
        let event_name = event.get_event_name();

        let mut current_state_id = event_start_state_id;
        let mut collected: Vec<PendingCommand<EventT>> = Vec::new();

        // Keep going until the event is handled (true) or the top state
        // has seen it.
        loop
            invariant
                sk == self.skeleton(),
                top == self.top_spec(),
                self.inv(),
                self.name_spec() == old(self).name_spec(),
                self.skeleton() =~= old(self).skeleton(),
                self.top_spec() == old(self).top_spec(),
                self.current_spec() == old(self).current_spec(),
                self.pending_spec() =~= old(self).pending_spec(),
                self.current_spec() is Some,
                sk_wf(sk, top),
                sk_registered(sk, current_state_id.id),
            decreases sk_root_path(sk, current_state_id.id).len(),
        {
            let step = match self.state_mapping.handle_event(&current_state_id, &event) {
                Ok(p) => p,
                Err(e) => {
                    proof {
                        assert(false);
                    }
                    return Err(e);
                },
            };
            let (is_handled, mut cmds) = step;
            collected.append(&mut cmds);

            if is_handled {
                break;
            }
            let next_state_id = match self.state_mapping.get_parent_state_id(&current_state_id) {
                None => {
                    break;  // reached the top state; the event is dropped
                },
                Some(next_id) => next_id,
            };
            proof {
                lemma_path_ends_top(sk, top, current_state_id.id);
                lemma_path_all_registered(sk, current_state_id.id);
                lemma_path_basics(sk, current_state_id.id, sk.len() as nat);
                let p = sk_root_path(sk, current_state_id.id);
                assert(sk_parent(sk, current_state_id.id) == Some(next_state_id.id));
                assert(p.len() >= 2) by {
                    if p.len() == 1 {
                        assert(sk_parent(sk, p.last()) == Some(next_state_id.id));
                    }
                }
                assert(p[1] == next_state_id.id) by {
                    assert(sk_parent(sk, p[0]) == Some(p[1]));
                }
                lemma_path_suffix(sk, current_state_id.id, 1);
                assert(sk_root_path(sk, next_state_id.id) =~= p.skip(1));
                assert(sk_registered(sk, p[1]));
            }
            current_state_id = next_state_id;
        }

        // The walk is over; reap what the handlers queued on the delegate.
        self.process_commands(collected, event_name)
    }

    /// Main API for consumers of the state machine to fire events into
    /// it. Handles the event, then drains the follow-up events the states
    /// queued, first-in first-out, until the queue settles. An error while
    /// handling the dispatched event itself is returned; an error deep in
    /// the follow-up cascade only stops that follow-up, not the caller's
    /// dispatch. A cascade that refuses to settle is reported instead of
    /// being allowed to run forever.
    #[verifier::rlimit(100)]
    #[verifier::spinoff_prover]
    pub fn dispatch_event(&mut self, event: EventT) -> (r: HSMResult<(), StateT>)
        requires
            old(self).inv(),
        ensures
            final(self).inv(),
            final(self).name_spec() == old(self).name_spec(),
            final(self).skeleton() =~= old(self).skeleton(),
            final(self).top_spec() == old(self).top_spec(),
            (old(self).current_spec() is None) <==> (r is Err
                && r->Err_0 is EngineNotInitialized),
            old(self).current_spec() is None ==> (final(self).current_spec() is None
                && final(self).trace_spec() =~= old(self).trace_spec()
                && final(self).pending_spec() =~= old(self).pending_spec()),
            old(self).current_spec() is Some ==> final(self).current_spec() is Some,
            r is Ok ==> final(self).pending_spec() =~= Seq::<EventT>::empty(),
    {
        if self.current_state.is_none() {
            return Err(HSMError::EngineNotInitialized());
        }
        let first_result = self.handle_event_internally(event);
        if first_result.is_err() {
            return first_result;
        }

        // Drain the follow-up events the handlers queued, oldest first.
        let mut fuel: usize = FOLLOW_UP_EVENT_LIMIT;
        while self.pending_events.len() > 0
            invariant
                self.inv(),
                self.name_spec() == old(self).name_spec(),
                self.skeleton() =~= old(self).skeleton(),
                self.top_spec() == old(self).top_spec(),
                self.current_spec() is Some,
                old(self).current_spec() is Some,
            decreases fuel,
        {
            if fuel == 0 {
                return Err(
                    HSMError::GenericError(
                        "follow-up event cascade did not settle within the allowed budget".to_owned(),
                    ),
                );
            }
            fuel = fuel - 1;
            let pending_event = self.pending_events.remove(0);
            let follow_up_result = self.handle_event_internally(pending_event);
            // A failure deep in a follow-up chain degrades to "that
            // follow-up did not complete" rather than unwinding the
            // caller's dispatch.
            match follow_up_result {
                Ok(_) => {},
                Err(_) => {},
            }
        }
        Ok(())
    }

    /// Remember the state the engine has settled in.
    fn set_current_state(&mut self, new_current_state: &StateId)
        requires
            sk_registered(old(self).skeleton(), new_current_state.id),
            old(self).inv(),
            old(self).current_spec() is Some,
        ensures
            final(self).inv(),
            final(self).current_spec() == Some(new_current_state.id),
            final(self).name_spec() == old(self).name_spec(),
            final(self).skeleton() =~= old(self).skeleton(),
            final(self).top_spec() == old(self).top_spec(),
            final(self).trace_spec() =~= old(self).trace_spec(),
            final(self).pending_spec() =~= old(self).pending_spec(),
    {
        self.current_state = Some(*new_current_state);
    }
}

} // verus!
