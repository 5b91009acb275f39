//! Verified core of a desktop activity session recorder.
//!
//! A session is sliced into fixed-duration steps. Raw mouse/keyboard events,
//! one frame per step, and externally supplied "thought" lines are folded into
//! per-step snapshots, a canonical compiled-action text line, and a set of
//! append-only output streams. This crate holds the data model, the windowing
//! aggregator, the canonical text renderings, and the writer bookkeeping, all
//! with machine-checked contracts; the operating-system edges (raw input,
//! screen capture, files, the encoder child process) live outside it.

pub mod aggregate;
pub mod clock;
pub mod collector;
pub mod compiled;
pub mod config;
pub mod errors;
pub mod events;
pub mod gui;
pub mod held;
pub mod json;
pub mod keys;
pub mod pipeline;
pub mod polling;
pub mod rawdecode;
pub mod snapshot;
pub mod strutil;
pub mod writer;
