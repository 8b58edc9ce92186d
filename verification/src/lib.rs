//! A hierarchical state machine execution engine.
//!
//! The engine owns a tree of consumer-implemented states, dispatches events
//! into the tree with chain-of-responsibility handling, and performs
//! hierarchical transitions: exit up to the least common ancestor, enter
//! down to the target, then start the target. States stay decoupled from
//! the engine's internals: while handling an event a state talks only to a
//! delegate mailbox, whose commands the engine reaps deterministically
//! after each handler walk.

pub mod errors;
pub mod events;
pub mod examples;
pub mod light_hsm;
pub mod logger;
pub mod state;
pub mod state_data_delegate;
pub mod state_engine;
pub mod state_engine_delegate;
pub mod state_mapping;
pub mod utils;
