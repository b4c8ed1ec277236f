//! Snapshots of files, their differences, and how to go back.
pub mod diff;
pub mod manager;
pub mod record;
pub mod record_laws;
pub mod restore;
pub mod restore_laws;
pub mod run_laws;
pub mod snapshot;
pub mod step_laws;
