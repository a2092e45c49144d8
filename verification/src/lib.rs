//! A verified core for a minimal self-update helper.
//!
//! One update run replaces a running executable by a staged one: it
//! terminates every process running the old executable, deletes the old
//! file, copies the new file over the old path, and launches the result as
//! a fresh process. The run is strictly sequential and stops at the first
//! failing step; nothing is retried and nothing is rolled back.
//!
//! The crate separates the run into a small step machine ([`machine`]),
//! a mathematical model of the files and processes a run touches
//! ([`model`]), an executable in-memory system the machine can be run
//! against ([`system`]), and the run itself ([`updater`]). The laws that
//! a run obeys are stated and proved in [`laws`].

pub mod errors;
pub mod job;
pub mod laws;
pub mod machine;
pub mod model;
pub mod system;
pub mod updater;
