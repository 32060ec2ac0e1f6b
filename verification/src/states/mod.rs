//! The states of a node.

pub mod approved_peer;
pub mod bootstrapping_peer;
pub mod joining_peer;
