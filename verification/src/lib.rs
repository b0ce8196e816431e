//! Core machinery for event-sourced applications.
//!
//! Discrete, versioned event records are identified by a `(name, version)`
//! pair, validated for uniqueness within a variant set, folded into aggregate
//! state, and transformed across schema generations by per-representation
//! strategies.

pub mod adapter;
pub mod event;
pub mod registry;
pub mod sourcing;
