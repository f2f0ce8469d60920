//! Wave pacing for a wave-based combat game.
//!
//! The crate decides when a new wave of difficulty begins, what content
//! spawns when within that wave, and where spawned content materializes.
//! Time is kept in exact integer milliseconds so that every scheduling
//! decision is deterministic and fully specified; randomness enters only
//! where content is drawn from the catalog and where spawn points are
//! sampled, and the contracts state what holds of every possible draw.

pub mod catalog;
pub mod clock;
pub mod laws;
pub mod platform_support;
pub mod resolver;
mod rng;
mod seq_facts;
pub mod timeline;
