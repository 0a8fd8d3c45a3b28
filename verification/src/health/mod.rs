//! Whether a core is well: the policy, the probes, and how their answers add up.

pub mod driver;
pub mod policy;
pub mod probe;
pub mod tracker;
