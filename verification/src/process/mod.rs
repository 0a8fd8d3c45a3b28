//! Child processes: how they are recorded, supervised and restarted.

pub mod command;
pub mod engine;
pub mod error;
pub mod event;
pub mod handle;
pub mod pid_file;
pub mod supervisor;
