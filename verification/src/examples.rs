//! Structs and infrastructure useful for minimal examples and tests: a
//! small four-state hierarchy (a top state, two children, and a grandchild)
//! with counting handlers.
use vstd::prelude::*;

use crate::events::StateEventTrait;
use crate::state::{StateConstraint, StateIF};
use crate::state_data_delegate::StateDataDelegate;
use crate::utils::saturating_increment;

verus! {

/// The example hierarchy's state enumeration: a top state, two children
/// `LevelA1` and `LevelB1`, and `LevelA2` below `LevelA1`; `INVALID` is
/// the sentinel for unknown ids.
#[derive(Clone, Copy, PartialEq, Eq, Structural, Debug)]
pub enum ExampleStates {
    INVALID,
    Top,
    LevelA1,
    LevelB1,
    LevelA2,
}

impl StateConstraint for ExampleStates {
    fn from_id(id: u16) -> Self {
        match id {
            1 => ExampleStates::Top,
            2 => ExampleStates::LevelA1,
            3 => ExampleStates::LevelB1,
            4 => ExampleStates::LevelA2,
            _ => ExampleStates::INVALID,
        }
    }

    fn to_id(&self) -> u16 {
        match self {
            ExampleStates::Top => 1,
            ExampleStates::LevelA1 => 2,
            ExampleStates::LevelB1 => 3,
            ExampleStates::LevelA2 => 4,
            ExampleStates::INVALID => 0xFFFF,
        }
    }

    fn name(&self) -> String {
        match self {
            ExampleStates::Top => "Top".to_owned(),
            ExampleStates::LevelA1 => "LevelA1".to_owned(),
            ExampleStates::LevelB1 => "LevelB1".to_owned(),
            ExampleStates::LevelA2 => "LevelA2".to_owned(),
            ExampleStates::INVALID => "INVALID".to_owned(),
        }
    }
}

/// Per-state bookkeeping for the example states: whether the lifecycle
/// callbacks ran and how often each event was handled with `true`.
#[derive(Clone, Copy, Debug)]
pub struct ExampleStateData {
    pub state_entered: bool,
    pub state_exited: bool,
    pub count_a_handled_true: u16,
    pub count_b_handled_true: u16,
    pub count_c_handled_true: u16,
    pub count_d_handled_true: u16,
    pub count_e_handled_true: u16,
    pub count_f_handled_true: u16,
}

impl ExampleStateData {
    pub fn new() -> (r: Self)
        ensures
            !r.state_entered,
            !r.state_exited,
            r.count_a_handled_true == 0,
            r.count_b_handled_true == 0,
            r.count_c_handled_true == 0,
            r.count_d_handled_true == 0,
            r.count_e_handled_true == 0,
            r.count_f_handled_true == 0,
    {
        ExampleStateData {
            state_entered: false,
            state_exited: false,
            count_a_handled_true: 0,
            count_b_handled_true: 0,
            count_c_handled_true: 0,
            count_d_handled_true: 0,
            count_e_handled_true: 0,
            count_f_handled_true: 0,
        }
    }
}

/// Payload carried by the example event `F`.
#[derive(Debug, PartialEq, Eq, Structural, Clone, Copy)]
pub struct ExampleFData {
    pub x: i32,
}

/// The events the example hierarchy understands.
#[derive(Debug)]
pub enum ExampleEvents {
    A,
    B(u8),
    C,
    D,
    E(u8),
    F(ExampleFData),
    InvalidNumArgs(usize),
    InvalidDeserialize,
    Invalid,
}

impl StateEventTrait for ExampleEvents {
    fn get_event_name(&self) -> String {
        match self {
            ExampleEvents::A => "A".to_owned(),
            ExampleEvents::B(_) => "B".to_owned(),
            ExampleEvents::C => "C".to_owned(),
            ExampleEvents::D => "D".to_owned(),
            ExampleEvents::E(_) => "E".to_owned(),
            ExampleEvents::F(_) => "F".to_owned(),
            ExampleEvents::InvalidNumArgs(_) => "InvalidNumArgs".to_owned(),
            ExampleEvents::InvalidDeserialize => "InvalidDeserialize".to_owned(),
            ExampleEvents::Invalid => "Invalid".to_owned(),
        }
    }
}

/// The example hierarchy's top state: it handles everything.
pub struct Top {
    pub data: ExampleStateData,
}

/// First child of the top state: handles all events besides `B`.
pub struct A1Impl {
    pub data: ExampleStateData,
}

/// Second child of the top state: handles all events besides `A`.
pub struct B1Impl {
    pub data: ExampleStateData,
}

/// Child of `A1Impl`: only handles `B`, everything else falls through to
/// its parent.
pub struct A2Impl {
    pub data: ExampleStateData,
}

impl Top {
    pub fn new() -> Box<Self> {
        Box::new(Top { data: ExampleStateData::new() })
    }
}

impl A1Impl {
    pub fn new() -> Box<Self> {
        Box::new(A1Impl { data: ExampleStateData::new() })
    }
}

impl B1Impl {
    pub fn new() -> Box<Self> {
        Box::new(B1Impl { data: ExampleStateData::new() })
    }
}

impl A2Impl {
    pub fn new() -> Box<Self> {
        Box::new(A2Impl { data: ExampleStateData::new() })
    }
}

impl StateIF<ExampleStates, ExampleEvents> for Top {
    fn handle_event(
        &mut self,
        event: &ExampleEvents,
        _delegate: &mut StateDataDelegate<ExampleEvents>,
    ) -> bool {
        match event {
            ExampleEvents::A => {
                self.data.count_a_handled_true = saturating_increment(
                    self.data.count_a_handled_true,
                );
                true
            },
            ExampleEvents::B(_) => {
                self.data.count_b_handled_true = saturating_increment(
                    self.data.count_b_handled_true,
                );
                true
            },
            ExampleEvents::C => {
                self.data.count_c_handled_true = saturating_increment(
                    self.data.count_c_handled_true,
                );
                true
            },
            ExampleEvents::D => {
                self.data.count_d_handled_true = saturating_increment(
                    self.data.count_d_handled_true,
                );
                true
            },
            ExampleEvents::E(_) => {
                self.data.count_e_handled_true = saturating_increment(
                    self.data.count_e_handled_true,
                );
                true
            },
            ExampleEvents::F(_) => {
                self.data.count_f_handled_true = saturating_increment(
                    self.data.count_f_handled_true,
                );
                true
            },
            ExampleEvents::InvalidNumArgs(_) => true,
            ExampleEvents::InvalidDeserialize => true,
            ExampleEvents::Invalid => true,
        }
    }

    fn handle_state_start(&mut self) {
        self.data.state_entered = true;
    }

    fn handle_state_exit(&mut self) {
        self.data.state_exited = true;
    }
}

impl StateIF<ExampleStates, ExampleEvents> for A1Impl {
    fn handle_event(
        &mut self,
        event: &ExampleEvents,
        _delegate: &mut StateDataDelegate<ExampleEvents>,
    ) -> bool {
        match event {
            ExampleEvents::A => {
                self.data.count_a_handled_true = saturating_increment(
                    self.data.count_a_handled_true,
                );
                true
            },
            ExampleEvents::B(_) => false,
            ExampleEvents::C => {
                self.data.count_c_handled_true = saturating_increment(
                    self.data.count_c_handled_true,
                );
                true
            },
            ExampleEvents::D => {
                self.data.count_d_handled_true = saturating_increment(
                    self.data.count_d_handled_true,
                );
                true
            },
            ExampleEvents::E(_) => {
                self.data.count_e_handled_true = saturating_increment(
                    self.data.count_e_handled_true,
                );
                true
            },
            ExampleEvents::F(_) => {
                self.data.count_f_handled_true = saturating_increment(
                    self.data.count_f_handled_true,
                );
                true
            },
            ExampleEvents::InvalidNumArgs(_) => true,
            ExampleEvents::InvalidDeserialize => true,
            ExampleEvents::Invalid => true,
        }
    }

    fn handle_state_start(&mut self) {
        self.data.state_entered = true;
    }

    fn handle_state_exit(&mut self) {
        self.data.state_exited = true;
    }
}

impl StateIF<ExampleStates, ExampleEvents> for B1Impl {
    fn handle_event(
        &mut self,
        event: &ExampleEvents,
        _delegate: &mut StateDataDelegate<ExampleEvents>,
    ) -> bool {
        match event {
            ExampleEvents::A => false,
            ExampleEvents::B(_) => {
                self.data.count_b_handled_true = saturating_increment(
                    self.data.count_b_handled_true,
                );
                true
            },
            ExampleEvents::C => {
                self.data.count_c_handled_true = saturating_increment(
                    self.data.count_c_handled_true,
                );
                true
            },
            ExampleEvents::D => {
                self.data.count_d_handled_true = saturating_increment(
                    self.data.count_d_handled_true,
                );
                true
            },
            ExampleEvents::E(_) => {
                self.data.count_e_handled_true = saturating_increment(
                    self.data.count_e_handled_true,
                );
                true
            },
            ExampleEvents::F(_) => {
                self.data.count_f_handled_true = saturating_increment(
                    self.data.count_f_handled_true,
                );
                true
            },
            ExampleEvents::InvalidNumArgs(_) => true,
            ExampleEvents::InvalidDeserialize => true,
            ExampleEvents::Invalid => true,
        }
    }

    fn handle_state_start(&mut self) {
        self.data.state_entered = true;
    }

    fn handle_state_exit(&mut self) {
        self.data.state_exited = true;
    }
}

impl StateIF<ExampleStates, ExampleEvents> for A2Impl {
    fn handle_event(
        &mut self,
        event: &ExampleEvents,
        _delegate: &mut StateDataDelegate<ExampleEvents>,
    ) -> bool {
        match event {
            ExampleEvents::A => false,
            ExampleEvents::B(_) => {
                self.data.count_b_handled_true = saturating_increment(
                    self.data.count_b_handled_true,
                );
                true
            },
            ExampleEvents::C => false,
            ExampleEvents::D => false,
            ExampleEvents::E(_) => false,
            ExampleEvents::F(_) => false,
            ExampleEvents::InvalidNumArgs(_) => true,
            ExampleEvents::InvalidDeserialize => true,
            ExampleEvents::Invalid => true,
        }
    }

    fn handle_state_start(&mut self) {
        self.data.state_entered = true;
    }

    fn handle_state_exit(&mut self) {
        self.data.state_exited = true;
    }
}

} // verus!
