//! Orchestration engine for a queued media downloader.
//!
//! The crate models the engine around an external command-line download
//! tool: format records and their capability predicates, the job lifecycle
//! state machine, the progress-line parser for the tool's textual output,
//! the per-download line monitor, and the command coordinator that bounds
//! how many downloads run at once and tracks per-job cancellation.
//! Subprocess I/O, the terminal front end and configuration files live
//! outside the library and talk to it through plain values.

pub mod app;
pub mod config;
pub mod driver;
pub mod events;
pub mod format;
pub mod input;
pub mod job;
pub mod pool;
pub mod progress;
pub mod strutil;
