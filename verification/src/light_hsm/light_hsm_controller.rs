//! The light's controller: wires the four states into an engine and hands
//! consumers a plain API over it.
use vstd::prelude::*;

use crate::errors::HSMResult;
use crate::light_hsm::light_events::LightEvents;
use crate::light_hsm::light_hsm_data::{LightHsmData, LightHsmDataRef};
use crate::light_hsm::light_state_dimmer::LightStateDimmer;
use crate::light_hsm::light_state_off::LightStateOff;
use crate::light_hsm::light_state_on::LightStateOn;
use crate::light_hsm::light_state_top::LightStateTop;
use crate::light_hsm::light_states::LightStates;
use crate::state_engine::{HSMEngine, TraceStep};
use crate::state_mapping::{
    lemma_entry_parent, sk_chain_ok, sk_chains_ok, sk_distinct, sk_no_dangling, sk_parent,
    sk_path, sk_registered, sk_root_path, sk_top_iff, sk_valid, Skeleton,
};

verus! {

/// The light's concrete hierarchy is a valid tree: `Top` (1) is the one
/// rootless state, `ON` (2) and `OFF` (3) sit below it, `DIMMER` (4)
/// below `ON`, and every parent chain ends at `Top`.
proof fn lemma_light_hierarchy_valid(sk: Skeleton)
    requires
        sk =~= seq![
            (1u16, Option::<u16>::None),
            (2u16, Some(1u16)),
            (3u16, Some(1u16)),
            (4u16, Some(2u16)),
        ],
    ensures
        sk_valid(sk, 1),
        sk_registered(sk, 4),
{
    assert(sk_distinct(sk)) by {
        assert forall|i: int, j: int| 0 <= i < j < sk.len() implies (#[trigger] sk[i]).0 != (
        #[trigger] sk[j]).0 by {
        }
    }
    assert(sk[0].0 == 1 && sk[1].0 == 2 && sk[2].0 == 3 && sk[3].0 == 4);
    assert(sk_registered(sk, 1) && sk_registered(sk, 2) && sk_registered(sk, 3) && sk_registered(
        sk,
        4,
    ));
    lemma_entry_parent(sk, 0);
    lemma_entry_parent(sk, 1);
    lemma_entry_parent(sk, 2);
    lemma_entry_parent(sk, 3);
    assert(sk_parent(sk, 1) is None);
    assert(sk_parent(sk, 2) == Some(1u16));
    assert(sk_parent(sk, 3) == Some(1u16));
    assert(sk_parent(sk, 4) == Some(2u16));
    assert(sk_no_dangling(sk));
    assert(sk_top_iff(sk, 1));
    assert(sk_root_path(sk, 1) =~= seq![1u16]) by {
        assert(sk_path(sk, 1, 4) =~= seq![1u16]);
    }
    assert(sk_root_path(sk, 2) =~= seq![2u16, 1u16]) by {
        assert(sk_path(sk, 1, 3) =~= seq![1u16]);
        assert(sk_path(sk, 2, 4) =~= seq![2u16] + sk_path(sk, 1, 3));
    }
    assert(sk_root_path(sk, 3) =~= seq![3u16, 1u16]) by {
        assert(sk_path(sk, 1, 3) =~= seq![1u16]);
        assert(sk_path(sk, 3, 4) =~= seq![3u16] + sk_path(sk, 1, 3));
    }
    assert(sk_root_path(sk, 4) =~= seq![4u16, 2u16, 1u16]) by {
        assert(sk_path(sk, 1, 2) =~= seq![1u16]);
        assert(sk_path(sk, 2, 3) =~= seq![2u16] + sk_path(sk, 1, 2));
        assert(sk_path(sk, 4, 4) =~= seq![4u16] + sk_path(sk, 2, 3));
    }
    assert(sk_chain_ok(sk, 1));
    assert(sk_chain_ok(sk, 2));
    assert(sk_chain_ok(sk, 3));
    assert(sk_chain_ok(sk, 4));
    assert(sk_chains_ok(sk)) by {
        assert forall|i: int| 0 <= i < sk.len() implies sk_chain_ok(sk, (#[trigger] sk[i]).0) by {
            if i == 0 {
                assert(sk_chain_ok(sk, 1));
            } else if i == 1 {
                assert(sk_chain_ok(sk, 2));
            } else if i == 2 {
                assert(sk_chain_ok(sk, 3));
            } else {
                assert(sk_chain_ok(sk, 4));
            }
        }
    }
}

/// The assembled light: the engine plus a handle on the data the states
/// share, kept here so the light's behaviour can be observed and asserted
/// on from outside.
pub struct LightControllerHsm {
    engine: HSMEngine<LightStates, LightEvents>,
    _shared_data: LightHsmDataRef,
}

impl LightControllerHsm {
    /// The wrapped engine's invariant, carried so dispatches can be
    /// chained from verified code.
    pub closed spec fn inv(self) -> bool {
        self.engine.inv()
    }

    /// The id of the state the light is settled in, if initialized.
    pub closed spec fn current_state_spec(self) -> Option<u16> {
        self.engine.current_spec()
    }

    /// Build the light: `Top` over `ON` and `OFF`, `DIMMER` below `ON`
    /// (the dimmer leverages much of ON's behaviour, so ON is its
    /// parent), starting settled in the dimmer.
    pub fn new() -> (r: Self)
        ensures
            r.inv(),
            r.current_state_spec() == Some(4u16),
    {
        let shared_data = LightHsmData::new(0);

        // State ids as the light's enumeration maps them: Top = 1,
        // ON = 2, OFF = 3, DIMMER = 4.
        let mut engine = HSMEngine::<LightStates, LightEvents>::new(
            "LightControllerHsm".to_owned(),
            1,
        );

        let top_state = LightStateTop::new(shared_data.clone());
        let state_on = LightStateOn::new(shared_data.clone());
        let state_dimmer = LightStateDimmer::new(shared_data.clone());
        let state_off = LightStateOff::new(shared_data.clone());

        let r1 = engine.add_state(top_state, 1, None);
        assert(r1 is Ok);
        let r2 = engine.add_state(state_on, 2, Some(1));
        assert(r2 is Ok);
        let r3 = engine.add_state(state_off, 3, Some(1));
        assert(r3 is Ok);
        let r4 = engine.add_state(state_dimmer, 4, Some(2));
        assert(r4 is Ok);
        proof {
            assert(engine.skeleton() =~= seq![
                (1u16, Option::<u16>::None),
                (2u16, Some(1u16)),
                (3u16, Some(1u16)),
                (4u16, Some(2u16)),
            ]);
            lemma_light_hierarchy_valid(engine.skeleton());
        }
        let ri = engine.init(4);
        assert(ri is Ok);

        LightControllerHsm { engine, _shared_data: shared_data }
    }

    /// The state the light is settled in; the invalid sentinel before the
    /// engine is initialized.
    pub fn get_current_state(&self) -> LightStates {
        match self.engine.get_current_state() {
            Ok(s) => s,
            Err(_) => LightStates::INVALID,
        }
    }

    /// Feed one event into the light and run it to completion, follow-up
    /// cascade included.
    pub fn dispatch_into_hsm(&mut self, event: LightEvents) -> (r: HSMResult<(), LightStates>)
        requires
            old(self).inv(),
        ensures
            final(self).inv(),
            old(self).current_state_spec() is Some ==> final(self).current_state_spec() is Some,
    {
        self.engine.dispatch_event(event)
    }

    /// A snapshot of the data the states share: brightness and callback
    /// counters.
    pub fn get_light_data(&self) -> LightHsmData {
        let handle = self._shared_data.acquire_read();
        let d = *handle.borrow();
        handle.release_read();
        d
    }

    /// Clear the recorded callback counters, keeping the brightness.
    pub fn clear_counts(&mut self)
        ensures
            final(self).inv() == old(self).inv(),
    {
        let (mut d, handle) = self._shared_data.acquire_write();
        d.clear_counts();
        handle.release_write(d);
    }

    /// The callbacks the most recent dispatch fired, in order.
    pub fn get_trace(&self) -> &Vec<TraceStep> {
        self.engine.get_trace()
    }
}

} // verus!
