//! The light's top state: it handles every event, so nothing ever falls
//! off the top of the hierarchy.
use vstd::prelude::*;

use crate::light_hsm::light_events::LightEvents;
use crate::light_hsm::light_hsm_data::LightHsmDataRef;
use crate::light_hsm::light_states::LightStates;
use crate::state::StateIF;
use crate::state_data_delegate::StateDataDelegate;
use crate::utils::saturating_increment;

verus! {

/// Root of the light hierarchy. It needs no delegate: it never requests
/// anything of the engine.
pub struct LightStateTop {
    shared_data: LightHsmDataRef,
}

impl LightStateTop {
    pub fn new(shared_data: LightHsmDataRef) -> Box<Self> {
        Box::new(LightStateTop { shared_data })
    }
}

impl StateIF<LightStates, LightEvents> for LightStateTop {
    fn handle_event(
        &mut self,
        _event: &LightEvents,
        _delegate: &mut StateDataDelegate<LightEvents>,
    ) -> bool {
        // Top returns true for all events.
        true
    }

    fn handle_state_start(&mut self) {
        let (mut d, handle) = self.shared_data.acquire_write();
        d.top_start_called = saturating_increment(d.top_start_called);
        handle.release_write(d);
    }

    fn handle_state_enter(&mut self) {
        let (mut d, handle) = self.shared_data.acquire_write();
        d.top_enter_called = saturating_increment(d.top_enter_called);
        handle.release_write(d);
    }

    fn handle_state_exit(&mut self) {
        let (mut d, handle) = self.shared_data.acquire_write();
        d.top_exit_called = saturating_increment(d.top_exit_called);
        handle.release_write(d);
    }
}

} // verus!
