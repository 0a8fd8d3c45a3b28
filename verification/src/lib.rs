//! Core-manager logic: supervising proxy cores, applying configuration to
//! them, and reading what they print, as verified executable code.

pub mod capability;
pub mod clash_api;
pub mod config;
pub mod error;
pub mod health;
pub mod instance;
pub mod io;
pub mod kind;
pub mod log;
pub mod log_sink;
pub mod manager;
pub mod metadata;
pub mod path;
pub mod platform;
pub mod process;
pub mod spec;
pub mod state;
pub mod text;
pub mod time;
pub mod tree;
pub mod value;
pub mod yaml;
