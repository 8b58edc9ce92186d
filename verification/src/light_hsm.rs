//! A worked example: a light with a dimmer, driven by the state machine
//! engine. The hierarchy is `Top` over `ON` and `OFF`, with `DIMMER`
//! below `ON`.

pub mod light_events;
pub mod light_hsm_controller;
pub mod light_hsm_data;
pub mod light_state_dimmer;
pub mod light_state_off;
pub mod light_state_on;
pub mod light_state_top;
pub mod light_states;
