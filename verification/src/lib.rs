//! Match orchestration engine of a two-player real-time battle server.
//!
//! The engine is a set of registries (open matches, match state, outbound
//! channels) and an orchestrator that owns the authoritative character state of
//! every running battle. Every operation takes the registries it works on and
//! returns the events to push, each addressed to the outbound queue of one
//! connection; delivering them is the caller's part.

pub mod clock;
pub mod ident;
pub mod text;
pub mod models;
pub mod game;
pub mod keyed;
pub mod handlers;
pub mod db;
