//! Configurations: what is read, what a core is given, and where it is kept.

pub mod clash;
pub mod endpoint;
pub mod mihomo;
pub mod runtime_store;
pub mod snapshot;
