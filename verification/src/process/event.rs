//! What a child process tells its owner.

use vstd::prelude::*;

verus! {

/// Exit information of a terminated child.
#[derive(Debug, Clone, Copy, PartialEq, Eq, Structural)]
pub struct TerminatedPayload {
    pub code: Option<i32>,
    pub signal: Option<i32>,
}

/// Events of a running child, in order.
#[derive(Debug, Clone)]
pub enum ProcessEvent {
    Stdout(String),
    Stderr(String),
    Error(String),
    Terminated(TerminatedPayload),
}

} // verus!
