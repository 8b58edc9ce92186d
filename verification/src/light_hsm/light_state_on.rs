//! The light's ON state.
use vstd::prelude::*;

use crate::light_hsm::light_events::LightEvents;
use crate::light_hsm::light_hsm_data::LightHsmDataRef;
use crate::light_hsm::light_states::LightStates;
use crate::state::StateIF;
use crate::state_data_delegate::StateDataDelegate;
use crate::utils::saturating_increment;

verus! {

/// The light is on. Toggling or turning off requests a transition to the
/// OFF state through the delegate.
pub struct LightStateOn {
    shared_data: LightHsmDataRef,
}

impl LightStateOn {
    pub fn new(shared_data: LightHsmDataRef) -> Box<Self> {
        Box::new(LightStateOn { shared_data })
    }

    fn handle_toggle(&mut self, delegate: &mut StateDataDelegate<LightEvents>) -> bool {
        self.handle_turn_off(delegate)
    }

    fn handle_turn_off(&mut self, delegate: &mut StateDataDelegate<LightEvents>) -> bool {
        // The OFF state's id.
        match delegate.submit_state_change_request(3) {
            Ok(_) => true,
            Err(_) => false,
        }
    }
}

impl StateIF<LightStates, LightEvents> for LightStateOn {
    fn handle_event(
        &mut self,
        event: &LightEvents,
        delegate: &mut StateDataDelegate<LightEvents>,
    ) -> bool {
        match event {
            LightEvents::Toggle => self.handle_toggle(delegate),
            LightEvents::TurnOff => self.handle_turn_off(delegate),
            _ => false,
        }
    }

    /// Enter is not enough to settle the brightness: the light may only be
    /// passing through on its way to the dimmer. Only set it to 100 when
    /// the machine actually settles here.
    fn handle_state_start(&mut self) {
        let (mut d, handle) = self.shared_data.acquire_write();
        d.on_start_called = saturating_increment(d.on_start_called);
        d.turn_on();
        handle.release_write(d);
    }

    fn handle_state_enter(&mut self) {
        let (mut d, handle) = self.shared_data.acquire_write();
        d.on_enter_called = saturating_increment(d.on_enter_called);
        handle.release_write(d);
    }

    fn handle_state_exit(&mut self) {
        let (mut d, handle) = self.shared_data.acquire_write();
        d.on_exit_called = saturating_increment(d.on_exit_called);
        handle.release_write(d);
    }
}

} // verus!
