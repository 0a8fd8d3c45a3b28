//! The shape of one normalized core console record.

use vstd::prelude::*;

use crate::metadata::kind::ClashCoreKind;

verus! {

#[derive(Debug, Clone, Copy, PartialEq, Eq, PartialOrd, Ord, Structural)]
pub enum LogLevel {
    Trace,
    Debug,
    Info,
    Warning,
    Error,
    Fatal,
}

/// How severe a level is.
pub open spec fn severity(level: LogLevel) -> int {
    match level {
        LogLevel::Trace => 0,
        LogLevel::Debug => 1,
        LogLevel::Info => 2,
        LogLevel::Warning => 3,
        LogLevel::Error => 4,
        LogLevel::Fatal => 5,
    }
}

impl LogLevel {
    pub fn severity(self) -> (r: u8)
        ensures
            r == severity(self),
    {
        match self {
            LogLevel::Trace => 0,
            LogLevel::Debug => 1,
            LogLevel::Info => 2,
            LogLevel::Warning => 3,
            LogLevel::Error => 4,
            LogLevel::Fatal => 5,
        }
    }
}

/// Two levels of one severity are one level.
pub proof fn law_severity_is_injective(a: LogLevel, b: LogLevel)
    ensures
        severity(a) == severity(b) ==> a == b,
{
}

#[derive(Debug, Clone, Copy, PartialEq, Eq, Structural)]
pub enum LogStream {
    Stdout,
    Stderr,
}

#[derive(Debug, Clone, PartialEq, Eq)]
pub struct LogTimestamp {
    pub raw: String,
    pub unix_ms: Option<i64>,
    pub inferred: bool,
}

#[derive(Debug, Clone, PartialEq, Eq)]
pub struct LogField {
    pub key: String,
    pub value: String,
}

#[derive(Debug, Clone, PartialEq, Eq)]
pub struct LogFrame {
    pub at: i64,
    pub epoch: u64,
    pub kind: ClashCoreKind,
    pub stream: LogStream,
    pub level: LogLevel,
    pub timestamp: Option<LogTimestamp>,
    pub target: Option<String>,
    pub message: String,
    pub fields: Vec<LogField>,
    pub raw: String,
    pub truncated: bool,
}

/// Levels grow from tracing to what ends the core.
pub proof fn law_severities_are_ordered()
    ensures
        severity(LogLevel::Trace) < severity(LogLevel::Debug),
        severity(LogLevel::Debug) < severity(LogLevel::Info),
        severity(LogLevel::Info) < severity(LogLevel::Warning),
        severity(LogLevel::Warning) < severity(LogLevel::Error),
        severity(LogLevel::Error) < severity(LogLevel::Fatal),
{
}

} // verus!
