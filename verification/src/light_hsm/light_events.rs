//! The events the light understands.
use vstd::prelude::*;

use crate::events::StateEventTrait;

verus! {

/// Everything one can ask of the light.
#[derive(Debug, Clone, Copy, PartialEq, Eq, Structural)]
pub enum LightEvents {
    Toggle,
    /// Sets the light to a value from 0 to 100.
    SetLevel(u8),
    TurnOff,
    TurnOn,
    /// Reduces the lighting by a percentage from 0 to 100 if possible.
    ReduceByPercent(u8),
    IncreaseByPercent(u8),
    InvalidNumArgs(usize),
    Invalid,
}

impl StateEventTrait for LightEvents {
    fn get_event_name(&self) -> String {
        match self {
            LightEvents::Toggle => "Toggle".to_owned(),
            LightEvents::SetLevel(_) => "SetLevel".to_owned(),
            LightEvents::TurnOff => "TurnOff".to_owned(),
            LightEvents::TurnOn => "TurnOn".to_owned(),
            LightEvents::ReduceByPercent(_) => "ReduceByPercent".to_owned(),
            LightEvents::IncreaseByPercent(_) => "IncreaseByPercent".to_owned(),
            LightEvents::InvalidNumArgs(_) => "InvalidNumArgs".to_owned(),
            LightEvents::Invalid => "Invalid".to_owned(),
        }
    }
}

} // verus!
