//! A single-actor runtime core: a content-addressed hash chain of state
//! snapshots, and the actor that records each state transition of its
//! component in that chain under an apply-or-nothing protocol.

pub mod actor;
pub mod chain;
pub mod component;
pub mod digest;
pub mod json;
