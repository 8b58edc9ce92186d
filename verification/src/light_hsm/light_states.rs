//! The light's state enumeration and its mapping to numeric state ids.
use vstd::prelude::*;

use crate::state::StateConstraint;

verus! {

/// The light's states: `Top` over `ON` and `OFF`, with `DIMMER` nested
/// below `ON`; `INVALID` is the sentinel for unknown ids.
#[allow(non_camel_case_types)]
#[derive(Clone, Copy, PartialEq, Eq, Structural, Debug)]
pub enum LightStates {
    INVALID,
    Top,
    ON,
    OFF,
    DIMMER,
}

impl StateConstraint for LightStates {
    fn from_id(id: u16) -> Self {
        match id {
            1 => LightStates::Top,
            2 => LightStates::ON,
            3 => LightStates::OFF,
            4 => LightStates::DIMMER,
            _ => LightStates::INVALID,
        }
    }

    fn to_id(&self) -> u16 {
        match self {
            LightStates::Top => 1,
            LightStates::ON => 2,
            LightStates::OFF => 3,
            LightStates::DIMMER => 4,
            LightStates::INVALID => 0xFFFF,
        }
    }

    fn name(&self) -> String {
        match self {
            LightStates::Top => "Top".to_owned(),
            LightStates::ON => "ON".to_owned(),
            LightStates::OFF => "OFF".to_owned(),
            LightStates::DIMMER => "DIMMER".to_owned(),
            LightStates::INVALID => "INVALID".to_owned(),
        }
    }
}

} // verus!
