//! The life of a core across its epochs.

pub mod apply;
pub mod compensate;
pub mod ctrl;
pub mod epochs;
pub mod launch;
pub mod laws;
pub mod options;
pub mod reconcile;
pub mod recover;
pub mod route;
pub mod start;
pub mod stop;
pub mod switch;
