//! The light's DIMMER state, nested below ON: it adjusts the brightness,
//! and delegates the extremes (fully off, fully on) back into the machine
//! as follow-up events.
use vstd::prelude::*;

use crate::light_hsm::light_events::LightEvents;
use crate::light_hsm::light_hsm_data::{LightAdjustment, LightHsmDataRef};
use crate::light_hsm::light_states::LightStates;
use crate::state::StateIF;
use crate::state_data_delegate::StateDataDelegate;
use crate::utils::saturating_increment;

verus! {

/// The dimmable region of the light's behaviour.
pub struct LightStateDimmer {
    shared_data: LightHsmDataRef,
}

impl LightStateDimmer {
    pub fn new(shared_data: LightHsmDataRef) -> Box<Self> {
        Box::new(LightStateDimmer { shared_data })
    }

    fn set_to_percentage(
        &mut self,
        percentage: u8,
        delegate: &mut StateDataDelegate<LightEvents>,
    ) -> bool {
        let event_res = if percentage == 0 {
            delegate.dispatch_event_internally(LightEvents::TurnOff)
        } else if percentage >= 100 {
            delegate.dispatch_event_internally(LightEvents::TurnOn)
        } else {
            Ok(())
        };
        let (mut d, handle) = self.shared_data.acquire_write();
        let set_ok = d.set_lighting(percentage);
        handle.release_write(d);
        set_ok && event_res.is_ok()
    }

    fn set_relative(&mut self, action: LightAdjustment, relative_percentage: u8) -> bool {
        let (mut d, handle) = self.shared_data.acquire_write();
        d.adjust_lighting_by_percentage(relative_percentage, action);
        handle.release_write(d);
        true
    }
}

impl StateIF<LightStates, LightEvents> for LightStateDimmer {
    fn handle_event(
        &mut self,
        event: &LightEvents,
        delegate: &mut StateDataDelegate<LightEvents>,
    ) -> bool {
        match event {
            LightEvents::SetLevel(percentage) => self.set_to_percentage(*percentage, delegate),
            LightEvents::ReduceByPercent(percentage) => self.set_relative(
                LightAdjustment::Decrease,
                *percentage,
            ),
            LightEvents::IncreaseByPercent(percentage) => self.set_relative(
                LightAdjustment::Increase,
                *percentage,
            ),
            // TurnOff and Toggle are implemented by our parent (the ON
            // state); leverage that behaviour by not handling them.
            _ => false,
        }
    }

    fn handle_state_start(&mut self) {
        let (mut d, handle) = self.shared_data.acquire_write();
        d.dimmer_start_called = saturating_increment(d.dimmer_start_called);
        handle.release_write(d);
    }

    fn handle_state_enter(&mut self) {
        let (mut d, handle) = self.shared_data.acquire_write();
        d.dimmer_enter_called = saturating_increment(d.dimmer_enter_called);
        handle.release_write(d);
    }

    fn handle_state_exit(&mut self) {
        let (mut d, handle) = self.shared_data.acquire_write();
        d.dimmer_exit_called = saturating_increment(d.dimmer_exit_called);
        handle.release_write(d);
    }
}

} // verus!
