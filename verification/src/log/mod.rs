//! Normalizing core console output into structured records.

pub mod clock;
pub mod common;
pub mod frame;
pub mod laws;
pub mod line;
pub mod mihomo;
pub mod other;
pub mod parser;
