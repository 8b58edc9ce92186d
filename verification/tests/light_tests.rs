//! Scenario tests mirroring the reference light hierarchy:
//! Top over ON and OFF, with DIMMER below ON.
use rust_hsm::light_hsm::light_events::LightEvents;
use rust_hsm::light_hsm::light_hsm_controller::LightControllerHsm;
use rust_hsm::light_hsm::light_hsm_data::{LightAdjustment, LightHsmData};
use rust_hsm::light_hsm::light_states::LightStates;
use rust_hsm::state_engine::TraceStep;

#[test]
fn initial_state_enters_every_ancestor_once() {
    // Build the light with initial state DIMMER: Top.enter, ON.enter,
    // DIMMER.enter and DIMMER.start each fire exactly once.
    let light_hsm = LightControllerHsm::new();

    assert_eq!(light_hsm.get_current_state(), LightStates::DIMMER);

    let data = light_hsm.get_light_data();
    assert_eq!(data.top_enter_called, 1);
    assert_eq!(data.top_start_called, 0);
    assert_eq!(data.top_exit_called, 0);
    assert_eq!(data.on_enter_called, 1);
    assert_eq!(data.on_start_called, 0);
    assert_eq!(data.on_exit_called, 0);
    assert_eq!(data.dimmer_enter_called, 1);
    assert_eq!(data.dimmer_start_called, 1);
    assert_eq!(data.dimmer_exit_called, 0);
    assert_eq!(data.off_enter_called, 0);
    assert_eq!(data.off_start_called, 0);
    assert_eq!(data.off_exit_called, 0);
}

#[test]
fn setting_brightness_to_zero_settles_in_off() {
    // Dispatch SetLevel(0) while in DIMMER: the dimmer zeroes the
    // brightness and the machine cascades into OFF through the top-level
    // LCA, exiting both DIMMER and ON.
    let mut light_hsm = LightControllerHsm::new();
    light_hsm.clear_counts();

    light_hsm
        .dispatch_into_hsm(LightEvents::SetLevel(0))
        .expect("Error dispatching SetLevel event into HSM");

    assert_eq!(light_hsm.get_current_state(), LightStates::OFF);
    let data = light_hsm.get_light_data();
    assert_eq!(data.light_percentage, 0);
    assert_eq!(data.dimmer_exit_called, 1);
    assert_eq!(data.on_exit_called, 1);
    assert_eq!(data.off_enter_called, 1);
    assert_eq!(data.off_start_called, 1);
    assert_eq!(data.top_exit_called, 0);
    assert_eq!(data.top_enter_called, 0);

    // The transition record of the follow-up TurnOff that settled the
    // machine: DIMMER and ON exited deepest first, OFF entered and
    // started; the top state, sitting at the LCA, is untouched.
    assert_eq!(
        *light_hsm.get_trace(),
        vec![
            TraceStep::Exit(4),
            TraceStep::Exit(2),
            TraceStep::Enter(3),
            TraceStep::Start(3),
        ]
    );
}

#[test]
fn turn_on_while_off_settles_in_on() {
    // Dispatch TurnOn while in OFF: OFF's handler requests a transition
    // to ON; the dimmer is never touched.
    let mut light_hsm = LightControllerHsm::new();
    light_hsm
        .dispatch_into_hsm(LightEvents::SetLevel(0))
        .expect("Error dispatching SetLevel event into HSM");
    light_hsm.clear_counts();

    light_hsm
        .dispatch_into_hsm(LightEvents::TurnOn)
        .expect("Error dispatching TurnOn event into hsm");

    assert_eq!(light_hsm.get_current_state(), LightStates::ON);
    let data = light_hsm.get_light_data();
    assert_eq!(data.off_exit_called, 1);
    assert_eq!(data.on_enter_called, 1);
    assert_eq!(data.on_start_called, 1);
    assert_eq!(data.dimmer_enter_called, 0);
    assert_eq!(data.dimmer_start_called, 0);
    assert_eq!(data.dimmer_exit_called, 0);
    assert_eq!(data.top_enter_called, 0);
    assert_eq!(data.top_exit_called, 0);
    assert_eq!(data.light_percentage, 100);
}

#[test]
fn turn_on_while_already_on_changes_nothing() {
    // Dispatch TurnOn again while already ON: no enter, exit or start
    // fires anywhere and the current state is unchanged.
    let mut light_hsm = LightControllerHsm::new();
    light_hsm
        .dispatch_into_hsm(LightEvents::SetLevel(0))
        .expect("Error dispatching SetLevel event into HSM");
    light_hsm
        .dispatch_into_hsm(LightEvents::TurnOn)
        .expect("Error dispatching TurnOn event into hsm");
    light_hsm.clear_counts();

    light_hsm
        .dispatch_into_hsm(LightEvents::TurnOn)
        .expect("Error dispatching TurnOn event into hsm");

    assert!(light_hsm.get_light_data().none_called());
    assert_eq!(light_hsm.get_current_state(), LightStates::ON);
}

#[test]
fn unhandled_event_bubbles_to_top_and_is_consumed() {
    // Dispatch an event no state in the chain cares about while in ON:
    // it bubbles to the top state, which consumes everything, so the
    // dispatch succeeds with no state change.
    let mut light_hsm = LightControllerHsm::new();
    light_hsm
        .dispatch_into_hsm(LightEvents::SetLevel(0))
        .expect("Error dispatching SetLevel event into HSM");
    light_hsm
        .dispatch_into_hsm(LightEvents::TurnOn)
        .expect("Error dispatching TurnOn event into hsm");
    light_hsm.clear_counts();

    // ReduceByPercent is understood only by the dimmer, which is not an
    // ancestor of ON, so nothing on the active chain handles it.
    light_hsm
        .dispatch_into_hsm(LightEvents::ReduceByPercent(10))
        .expect("Error dispatching ReduceByPercent event into hsm");

    assert_eq!(light_hsm.get_current_state(), LightStates::ON);
    assert!(light_hsm.get_light_data().none_called());
    assert_eq!(light_hsm.get_light_data().light_percentage, 100);
}

#[test]
fn toggle_while_on_turns_the_light_off() {
    let mut light_hsm = LightControllerHsm::new();
    light_hsm
        .dispatch_into_hsm(LightEvents::SetLevel(0))
        .expect("Error dispatching SetLevel event into HSM");
    light_hsm
        .dispatch_into_hsm(LightEvents::TurnOn)
        .expect("Error dispatching TurnOn event into hsm");
    light_hsm.clear_counts();

    light_hsm
        .dispatch_into_hsm(LightEvents::TurnOff)
        .expect("Error dispatching TurnOff event into hsm");

    assert_eq!(light_hsm.get_current_state(), LightStates::OFF);
    let data = light_hsm.get_light_data();
    assert_eq!(data.on_exit_called, 1);
    assert_eq!(data.off_enter_called, 1);
    assert_eq!(data.off_start_called, 1);
    assert_eq!(data.light_percentage, 0);
}

#[test]
fn dimmer_adjusts_brightness_relative_to_current_level() {
    // While in DIMMER, set a mid level and adjust it: the new level is
    // current +/- current * modifier, clamped to the 0..=100 range.
    let mut light_hsm = LightControllerHsm::new();

    light_hsm
        .dispatch_into_hsm(LightEvents::SetLevel(40))
        .expect("Error dispatching SetLevel event into HSM");
    assert_eq!(light_hsm.get_current_state(), LightStates::DIMMER);
    assert_eq!(light_hsm.get_light_data().light_percentage, 40);

    // 40 + 40 * 1 = 80.
    light_hsm
        .dispatch_into_hsm(LightEvents::IncreaseByPercent(1))
        .expect("Error dispatching IncreaseByPercent event into hsm");
    assert_eq!(light_hsm.get_light_data().light_percentage, 80);

    // 80 + 80 * 1 = 160, clamped to 100.
    light_hsm
        .dispatch_into_hsm(LightEvents::IncreaseByPercent(1))
        .expect("Error dispatching IncreaseByPercent event into hsm");
    assert_eq!(light_hsm.get_light_data().light_percentage, 100);
}

#[test]
fn light_data_set_lighting_rejects_out_of_range_values() {
    let data_ref = LightHsmData::new(10);
    let handle = data_ref.acquire_read();
    let mut data = *handle.borrow();
    handle.release_read();

    assert!(data.set_lighting(55));
    assert_eq!(data.light_percentage, 55);
    assert!(!data.set_lighting(101));
    assert_eq!(data.light_percentage, 55);
    data.turn_on();
    assert_eq!(data.light_percentage, 100);
    data.turn_off();
    assert_eq!(data.light_percentage, 0);
}

#[test]
fn light_data_adjustment_is_clamped_at_both_ends() {
    let data_ref = LightHsmData::new(0);
    let handle = data_ref.acquire_read();
    let mut data = *handle.borrow();
    handle.release_read();

    data.set_lighting(50);
    data.adjust_lighting_by_percentage(1, LightAdjustment::Decrease);
    assert_eq!(data.light_percentage, 0);

    data.set_lighting(60);
    data.adjust_lighting_by_percentage(2, LightAdjustment::Increase);
    assert_eq!(data.light_percentage, 100);
}

#[test]
fn clearing_counts_keeps_the_brightness() {
    let mut light_hsm = LightControllerHsm::new();
    light_hsm
        .dispatch_into_hsm(LightEvents::SetLevel(33))
        .expect("Error dispatching SetLevel event into HSM");
    light_hsm.clear_counts();
    let data = light_hsm.get_light_data();
    assert!(data.none_called());
    assert_eq!(data.light_percentage, 33);
}
