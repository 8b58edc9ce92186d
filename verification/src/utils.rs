//! Small helpers shared across the crate.
use vstd::prelude::*;

use crate::state::{StateConstraint, StateId};

verus! {

/// Exchange a state token for the consumer's own enumeration variant; an
/// unknown id maps to the enumeration's invalid sentinel, never a panic.
pub fn get_state_choice<States: StateConstraint>(state_id: &StateId) -> States {
    States::from_id(*state_id.get_id())
}

/// The display name the consumer's enumeration gives this state token.
pub fn resolve_state_name<States: StateConstraint>(state_id: &StateId) -> String {
    get_state_choice::<States>(state_id).name()
}

/// Add one without wrapping: a counter that has reached its ceiling stays
/// there.
pub fn saturating_increment(value: u16) -> (r: u16)
    ensures
        r == if value < 0xFFFF {
            (value + 1) as u16
        } else {
            value
        },
{
    if value < 0xFFFF {
        value + 1
    } else {
        value
    }
}

} // verus!
