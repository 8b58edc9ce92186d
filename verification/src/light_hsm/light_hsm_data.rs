//! Data shared between the light's controller and its states: the current
//! brightness plus a call counter for every lifecycle callback, so the
//! transition behaviour is observable from outside.
use vstd::prelude::*;

use std::sync::Arc;
use vstd::rwlock::{RwLock, RwLockPredicate};

verus! {

/// Direction of a relative brightness adjustment.
#[derive(Clone, Copy, PartialEq, Eq, Structural, Debug)]
pub enum LightAdjustment {
    Increase,
    Decrease,
}

/// Every value of the shared light data is acceptable in the lock.
pub struct LightDataPred;

impl RwLockPredicate<LightHsmData> for LightDataPred {
    open spec fn inv(self, v: LightHsmData) -> bool {
        true
    }
}

/// How the data travels: the states and the controller each hold a handle
/// to one shared, lock-protected value.
pub type LightHsmDataRef = Arc<RwLock<LightHsmData, LightDataPred>>;

/// The brightness and the per-state callback counters.
#[derive(Clone, Copy, Debug)]
pub struct LightHsmData {
    /// 0 = off, 100 = fully on.
    pub light_percentage: u8,
    pub top_enter_called: u16,
    pub top_start_called: u16,
    pub top_exit_called: u16,
    pub on_enter_called: u16,
    pub on_start_called: u16,
    pub on_exit_called: u16,
    pub off_enter_called: u16,
    pub off_start_called: u16,
    pub off_exit_called: u16,
    pub dimmer_enter_called: u16,
    pub dimmer_start_called: u16,
    pub dimmer_exit_called: u16,
}

/// The brightness that results from adjusting `cur` by `cur * m` percent
/// in the given direction, clamped to the 0..=100 range.
pub open spec fn adjusted_percentage(cur: u8, m: u8, adjustment: LightAdjustment) -> u8 {
    let amount = cur * m;
    let v = match adjustment {
        LightAdjustment::Increase => cur + amount,
        LightAdjustment::Decrease => if cur >= amount {
            cur - amount
        } else {
            0
        },
    };
    if v > 100 {
        100
    } else {
        v as u8
    }
}

/// All callback counters of `d` are zero.
pub open spec fn no_callback_recorded(d: LightHsmData) -> bool {
    &&& d.top_enter_called == 0
    &&& d.top_start_called == 0
    &&& d.top_exit_called == 0
    &&& d.on_enter_called == 0
    &&& d.on_start_called == 0
    &&& d.on_exit_called == 0
    &&& d.off_enter_called == 0
    &&& d.off_start_called == 0
    &&& d.off_exit_called == 0
    &&& d.dimmer_enter_called == 0
    &&& d.dimmer_start_called == 0
    &&& d.dimmer_exit_called == 0
}

/// `d` with every counter cleared and the brightness kept.
pub open spec fn with_cleared_counts(d: LightHsmData) -> LightHsmData {
    LightHsmData {
        light_percentage: d.light_percentage,
        top_enter_called: 0,
        top_start_called: 0,
        top_exit_called: 0,
        on_enter_called: 0,
        on_start_called: 0,
        on_exit_called: 0,
        off_enter_called: 0,
        off_start_called: 0,
        off_exit_called: 0,
        dimmer_enter_called: 0,
        dimmer_start_called: 0,
        dimmer_exit_called: 0,
    }
}

impl LightHsmData {
    /// Fresh shared data at the given brightness (0 = off, 100 = on), all
    /// counters zero.
    pub fn new(percentage: u8) -> LightHsmDataRef {
        let data = LightHsmData {
            light_percentage: percentage,
            top_enter_called: 0,
            top_start_called: 0,
            top_exit_called: 0,
            on_enter_called: 0,
            on_start_called: 0,
            on_exit_called: 0,
            off_enter_called: 0,
            off_start_called: 0,
            off_exit_called: 0,
            dimmer_enter_called: 0,
            dimmer_start_called: 0,
            dimmer_exit_called: 0,
        };
        Arc::new(RwLock::new(data, Ghost(LightDataPred)))
    }

    pub fn turn_off(&mut self)
        ensures
            *final(self) == (LightHsmData { light_percentage: 0, ..*old(self) }),
    {
        self.set_lighting(0);
    }

    pub fn turn_on(&mut self)
        ensures
            *final(self) == (LightHsmData { light_percentage: 100, ..*old(self) }),
    {
        self.set_lighting(100);
    }

    /// Set the brightness; 0 = off, 100 = on. True on success, false (and
    /// no change) when the requested value is out of range.
    pub fn set_lighting(&mut self, percentage: u8) -> (r: bool)
        ensures
            r == (percentage <= 100),
            percentage <= 100 ==> *final(self) == (LightHsmData {
                light_percentage: percentage,
                ..*old(self)
            }),
            percentage > 100 ==> *final(self) == *old(self),
    {
        if percentage <= 100 {
            self.light_percentage = percentage;
            true
        } else {
            false
        }
    }

    /// Modifies the current lighting percentage by `cur * modifier`
    /// percent in the given direction, bounded to the 0..=100 range.
    pub fn adjust_lighting_by_percentage(
        &mut self,
        percentage_modifier: u8,
        adjustment_type: LightAdjustment,
    )
        ensures
            *final(self) == (LightHsmData {
                light_percentage: adjusted_percentage(
                    old(self).light_percentage,
                    percentage_modifier,
                    adjustment_type,
                ),
                ..*old(self)
            }),
    {
        let base: u32 = self.light_percentage as u32;
        let modifier: u32 = percentage_modifier as u32;
        proof {
            assert(base * modifier <= 255 * 255) by (nonlinear_arith)
                requires
                    base <= 255,
                    modifier <= 255,
            ;
        }
        let amount: u32 = base * modifier;
        let new_percentage: u32 = match adjustment_type {
            LightAdjustment::Increase => {
                proof {
                    assert(base + amount <= 255 + 255 * 255);
                }
                base + amount
            },
            LightAdjustment::Decrease => if base >= amount {
                base - amount
            } else {
                0
            },
        };
        let bounded_adjustment: u8 = if new_percentage > 100 {
            100
        } else {
            new_percentage as u8
        };
        self.set_lighting(bounded_adjustment);
    }

    /// Forget every recorded callback, keeping the brightness.
    pub fn clear_counts(&mut self)
        ensures
            *final(self) == with_cleared_counts(*old(self)),
    {
        self.top_enter_called = 0;
        self.top_start_called = 0;
        self.top_exit_called = 0;
        self.on_enter_called = 0;
        self.on_start_called = 0;
        self.on_exit_called = 0;
        self.off_enter_called = 0;
        self.off_start_called = 0;
        self.off_exit_called = 0;
        self.dimmer_enter_called = 0;
        self.dimmer_start_called = 0;
        self.dimmer_exit_called = 0;
    }

    /// True exactly when no lifecycle callback has been recorded since the
    /// counters were last cleared.
    pub fn none_called(&self) -> (r: bool)
        ensures
            r == no_callback_recorded(*self),
    {
        self.top_enter_called == 0 && self.top_start_called == 0 && self.top_exit_called == 0
            && self.on_enter_called == 0 && self.on_start_called == 0 && self.on_exit_called == 0
            && self.off_enter_called == 0 && self.off_start_called == 0 && self.off_exit_called
            == 0 && self.dimmer_enter_called == 0 && self.dimmer_start_called == 0
            && self.dimmer_exit_called == 0
    }
}

} // verus!
