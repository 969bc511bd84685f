//! Core logic of a desktop tool that mirrors a remote directory tree locally
//! and pushes local file modifications back to the remote side.
//!
//! The heart of the crate is the local change-detection pipeline: a directory
//! watcher decodes variable-length change-notification buffers into discrete
//! [`events::FileEvent`]s and pushes them into a shared [`events::EventQueue`];
//! a consumer drains the queue in bounded batches and plans one upload per
//! plain-file add/modify event. A tri-state [`ThreadStatus`] flag coordinates
//! the background loops, and [`tracker::DirectoryTracker`] composes the watcher
//! and consumer behind start/stop lifecycle operations.
//!
//! All operating-system specifics (the watch handle, thread spawning, the
//! actual upload subprocess) live outside this crate; the functions here are
//! the decisions and the data transformations, each with a verified contract.

pub mod commands;
pub mod consumer;
pub mod events;
pub mod remit_config;
pub mod remote_dir;
pub mod strutil;
pub mod sync_config;
pub mod system_path;
pub mod tracker;
pub mod watcher;

use vstd::prelude::*;

verus! {

/// Valid thread status for a background loop (watcher or consumer).
///
/// Any state may be set at any time; a background loop that observes `Kill`
/// exits and is never resurrected by a later write of `Resume`.
#[derive(PartialEq, Eq, Structural, Clone, Copy, Debug)]
pub enum ThreadStatus {
    /// idle the background loop
    Pause,
    /// have the background loop run
    Resume,
    /// end the background loop
    Kill,
}

} // verus!
