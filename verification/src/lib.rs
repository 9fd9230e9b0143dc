//! A per-transaction object-mutation buffer for a blockchain execution engine.
//!
//! While one transaction executes, the engine reads objects from a snapshot of
//! its inputs, stages writes and deletions, meters gas and finally turns the
//! staged changes into a post-image together with an effects summary.

pub mod base_types;
pub mod coin;
pub mod conservation;
pub mod effects;
pub mod error;
pub mod event;
pub mod finalize;
pub mod finalize_model;
pub mod gas;
pub mod gas_model;
pub mod id_map;
pub mod inner_store;
pub mod laws;
pub mod messages;
pub mod model;
pub mod object;
pub mod resolver_model;
pub mod storage;
pub mod store;
pub mod system_state;
