//! Room synchronization core for a collaborative estimation ("planning
//! poker") backend: rooms, users, stories, votes, the command protocol that
//! mutates them, the vote-visibility policy, and the per-recipient broadcast
//! rendering.
//!
//! Transport, static assets and configuration loading live outside this
//! library; it works on plain values handed in by the caller. The single
//! shared mutable resource is the [`registry::Registry`]; its caller
//! serializes admissions, retirements and commands, each followed by the
//! broadcast it asks for.

pub mod ids;
pub mod model;
pub mod visibility;
pub mod frames;
pub mod text;
pub mod commands;
pub mod registry;
pub mod views;
pub mod laws;
