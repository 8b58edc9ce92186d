//! The light's OFF state.
use vstd::prelude::*;

use crate::light_hsm::light_events::LightEvents;
use crate::light_hsm::light_hsm_data::LightHsmDataRef;
use crate::light_hsm::light_states::LightStates;
use crate::state::StateIF;
use crate::state_data_delegate::StateDataDelegate;
use crate::utils::saturating_increment;

verus! {

/// The light is off. Toggling or turning on requests a transition to the
/// ON state through the delegate.
pub struct LightStateOff {
    shared_data: LightHsmDataRef,
}

impl LightStateOff {
    pub fn new(shared_data: LightHsmDataRef) -> Box<Self> {
        Box::new(LightStateOff { shared_data })
    }

    fn handle_toggle(&mut self, delegate: &mut StateDataDelegate<LightEvents>) -> bool {
        self.handle_turn_on(delegate)
    }

    fn handle_turn_on(&mut self, delegate: &mut StateDataDelegate<LightEvents>) -> bool {
        // The ON state's id.
        match delegate.submit_state_change_request(2) {
            Ok(_) => true,
            Err(_) => false,
        }
    }
}

impl StateIF<LightStates, LightEvents> for LightStateOff {
    fn handle_event(
        &mut self,
        event: &LightEvents,
        delegate: &mut StateDataDelegate<LightEvents>,
    ) -> bool {
        match event {
            LightEvents::Toggle => self.handle_toggle(delegate),
            LightEvents::TurnOn => self.handle_turn_on(delegate),
            _ => false,
        }
    }

    fn handle_state_start(&mut self) {
        let (mut d, handle) = self.shared_data.acquire_write();
        d.turn_off();
        d.off_start_called = saturating_increment(d.off_start_called);
        handle.release_write(d);
    }

    fn handle_state_enter(&mut self) {
        let (mut d, handle) = self.shared_data.acquire_write();
        d.off_enter_called = saturating_increment(d.off_enter_called);
        handle.release_write(d);
    }

    fn handle_state_exit(&mut self) {
        let (mut d, handle) = self.shared_data.acquire_write();
        d.off_exit_called = saturating_increment(d.off_exit_called);
        handle.release_write(d);
    }
}

} // verus!
