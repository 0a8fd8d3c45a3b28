//! What the cores are, what they can do, and how their records look.

pub mod dist;
pub mod error_kind;
pub mod feature;
pub mod kind;
pub mod log;
