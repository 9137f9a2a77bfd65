//! Generation-based incremental backup core for a single working file.
//!
//! A backup root holds numbered generation directories, each anchored by an
//! immutable full baseline snapshot plus a chain of binary diff artifacts
//! produced by an external diff tool. The library decides how generations
//! are resolved and created, when to rotate to a fresh baseline, how a
//! backup operation commits its artifacts, and how a chain of diffs is
//! replayed on restore. All filesystem and subprocess work is delegated to
//! the caller through explicit actions, so every decision here is verified.

pub mod clock;
pub mod engine;
pub mod flat;
pub mod genname;
pub mod listing;
pub mod naming;
pub mod orchestrator;
pub mod paths;
pub mod resolver;
pub mod restore;
pub mod rotation;
pub mod strutil;
