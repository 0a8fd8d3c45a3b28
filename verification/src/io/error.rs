//! Failures of the file system.

use vstd::prelude::*;
use vstd::string::*;

verus! {

/// What kind of failure it was, as far as it decides anything.
#[derive(Debug, Clone, Copy, PartialEq, Eq, Structural)]
pub enum IoKind {
    NotFound,
    AlreadyExists,
    PermissionDenied,
    InvalidInput,
    InvalidData,
    TimedOut,
    Other,
}

/// A failure of the file system, with the number that the platform gave it.
#[derive(Debug, PartialEq, Eq)]
pub struct IoError {
    pub kind: IoKind,
    pub code: Option<i32>,
    pub message: String,
}

impl IoError {
    pub fn new(kind: IoKind, message: String) -> (r: IoError)
        ensures
            r == (IoError { kind, code: None, message }),
    {
        IoError { kind, code: None, message }
    }
}

} // verus!
