//! The battles in progress: the state of one, and the orchestrator of all.

pub mod manager;
pub mod state;
