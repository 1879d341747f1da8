//! An interpreter for the Cairo machine: decodes instruction words, runs them
//! over a write-once memory, and records the final registers of a run.
pub mod felt;
pub mod word;
pub mod memory;
pub mod runner;
pub mod alphas;
