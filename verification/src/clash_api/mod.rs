//! The controller of a core: where it is, how it is asked, and what it says of
//! the running configuration.

pub mod client;
pub mod config;
pub mod configs;
pub mod error;
pub mod fields;
pub mod keys;
pub mod laws;
pub mod traffic;
