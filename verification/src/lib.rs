//! Verified core of a WebDAV configuration-file synchroniser.
//!
//! The library holds the decisions of the synchroniser: how configuration is
//! normalised, how remote paths are built, what a sync run does with a local
//! and a remote copy of a file, how runtime state and logs evolve.  The I/O
//! (file system, HTTP, timers, GUI) stays with the caller.
pub mod text;
pub mod models;
pub mod digest;
pub mod engine;
pub mod clock;
pub mod states;
pub mod logs;
pub mod run;
pub mod config;
pub mod sorting;
pub mod readiness;
pub mod runtime;
pub mod paths;
pub mod urls;
pub mod listing;
pub mod ops;
pub mod watch;
