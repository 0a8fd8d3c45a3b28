//! Files that are replaced as a whole or not at all.

pub mod atomic_fs;
pub mod error;
