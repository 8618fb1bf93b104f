//! A per-entity behavior-selection runtime for entity-component-system game
//! engines: typed state holders, behavior trees, utility-AI scoring, and a
//! nearest-in-range targeting resolver.
//!
//! The host engine owns entities and drives each component once per
//! simulation tick; this crate holds the pure decision logic. Entities are
//! identified by plain `u64` ids, and spatial quantities (coordinates,
//! vision ranges) are fixed-point integers in a unit of the host's choosing,
//! so that every decision here is exact and verified.

pub mod behavior_tree;
pub mod combat;
pub mod state_machine;
pub mod targeting;
pub mod utility_ai;
pub mod voice;
