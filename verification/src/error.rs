//! What can go wrong while a core is managed.

use vstd::prelude::*;
use vstd::string::*;

use crate::clash_api::error as api;
use crate::clash_api::error::Error as ApiError;
use crate::io::atomic_fs::AtomicFsError;
use crate::io::error::IoError;
use crate::process::error as process;
use crate::process::error::ProcessError;
use crate::state;
use crate::state::RevisionId;
use crate::text;
use crate::text::u64_to_string;

verus! {

#[derive(Debug)]
#[non_exhaustive]
pub enum Error {
    NotStarted,
    AlreadyRunning,
    RevisionConflict { expected: RevisionId, actual: Option<RevisionId> },
    ManagerQuarantined { epoch: u64, reason: String },
    ConfigCheckFailed(String),
    ConfigNotFound(String),
    BinaryNotFound(String),
    InvalidConfig(String),
    ControllerMissing,
    ApplyFailed(String),
    ApplyRollbackFailed { apply: String, rollback: String },
    StopUnconfirmed(String),
    StartupFailed { stderr_tail: String },
    StartupTimeout { stderr_tail: String },
    InvalidHealthPolicy(String),
    InvalidManagerOptions(String),
    UnsafeRuntimeArtifact(String),
    DurabilityUncertain { source: Box<Error>, warning: String },
    Api(ApiError),
    Io(IoError),
    Process(ProcessError),
    Yaml(String),
}

pub open spec fn actual_text(actual: Option<RevisionId>) -> Seq<char> {
    match actual {
        Some(id) => state::id_text(id),
        None => "none"@,
    }
}

/// What an error says.
pub open spec fn error_text(e: Error) -> Seq<char>
    decreases e,
{
    match e {
        Error::NotStarted => "core is not started"@,
        Error::AlreadyRunning => "core is already running"@,
        Error::RevisionConflict { expected, actual } => "config revision conflict: expected "@
            + state::id_text(expected) + ", actual "@ + actual_text(actual),
        Error::ManagerQuarantined { epoch, reason } => "core manager is quarantined by epoch "@
            + text::decimal(epoch as nat) + ": "@ + reason@,
        Error::ConfigCheckFailed(message) => "config check failed: "@ + message@,
        Error::ConfigNotFound(path) => "config file not found: "@ + path@,
        Error::BinaryNotFound(path) => "core binary not found: "@ + path@,
        Error::InvalidConfig(message) => "invalid config: "@ + message@,
        Error::ControllerMissing => "config declares no external controller"@,
        Error::ApplyFailed(message) => "config apply failed: "@ + message@,
        Error::ApplyRollbackFailed { apply, rollback } => "config apply failed ("@ + apply@
            + ") and rollback failed: "@ + rollback@,
        Error::StopUnconfirmed(message) => "core stop is unconfirmed: "@ + message@,
        Error::StartupFailed { stderr_tail } => "core startup failed: "@ + stderr_tail@,
        Error::StartupTimeout { stderr_tail } => "core startup timed out: "@ + stderr_tail@,
        Error::InvalidHealthPolicy(message) => "invalid health policy: "@ + message@,
        Error::InvalidManagerOptions(message) => "invalid manager options: "@ + message@,
        Error::UnsafeRuntimeArtifact(path) => "unsafe runtime artifact: "@ + path@,
        Error::DurabilityUncertain { source, warning } => error_text(*source)
            + "; durability is uncertain: "@ + warning@,
        Error::Api(e) => api::api_error_text(e),
        Error::Io(e) => e.message@,
        Error::Process(e) => process::process_error_text(e),
        Error::Yaml(message) => message@,
    }
}

fn joined(a: &str, b: &str) -> (r: String)
    ensures
        r@ == a@ + b@,
{
    let mut out = a.to_owned();
    out.append(b);
    out
}

impl Error {
    pub fn message(&self) -> (r: String)
        ensures
            r@ == error_text(*self),
        decreases self,
    {
        match self {
            Error::NotStarted => "core is not started".to_owned(),
            Error::AlreadyRunning => "core is already running".to_owned(),
            Error::RevisionConflict { expected, actual } => {
                let mut out = joined(
                    "config revision conflict: expected ",
                    expected.text().as_str(),
                );
                out.append(", actual ");
                match actual {
                    Some(id) => out.append(id.text().as_str()),
                    None => out.append("none"),
                }
                out
            },
            Error::ManagerQuarantined { epoch, reason } => {
                let mut out = joined(
                    "core manager is quarantined by epoch ",
                    u64_to_string(*epoch).as_str(),
                );
                out.append(": ");
                out.append(reason.as_str());
                out
            },
            Error::ConfigCheckFailed(message) => joined("config check failed: ", message.as_str()),
            Error::ConfigNotFound(path) => joined("config file not found: ", path.as_str()),
            Error::BinaryNotFound(path) => joined("core binary not found: ", path.as_str()),
            Error::InvalidConfig(message) => joined("invalid config: ", message.as_str()),
            Error::ControllerMissing => "config declares no external controller".to_owned(),
            Error::ApplyFailed(message) => joined("config apply failed: ", message.as_str()),
            Error::ApplyRollbackFailed { apply, rollback } => {
                let mut out = joined("config apply failed (", apply.as_str());
                out.append(") and rollback failed: ");
                out.append(rollback.as_str());
                out
            },
            Error::StopUnconfirmed(message) => joined(
                "core stop is unconfirmed: ",
                message.as_str(),
            ),
            Error::StartupFailed { stderr_tail } => joined(
                "core startup failed: ",
                stderr_tail.as_str(),
            ),
            Error::StartupTimeout { stderr_tail } => joined(
                "core startup timed out: ",
                stderr_tail.as_str(),
            ),
            Error::InvalidHealthPolicy(message) => joined(
                "invalid health policy: ",
                message.as_str(),
            ),
            Error::InvalidManagerOptions(message) => joined(
                "invalid manager options: ",
                message.as_str(),
            ),
            Error::UnsafeRuntimeArtifact(path) => joined(
                "unsafe runtime artifact: ",
                path.as_str(),
            ),
            Error::DurabilityUncertain { source, warning } => {
                let mut out = source.message();
                out.append("; durability is uncertain: ");
                out.append(warning.as_str());
                out
            },
            Error::Api(e) => e.message(),
            Error::Io(e) => e.message.clone(),
            Error::Process(e) => e.message(),
            Error::Yaml(message) => message.clone(),
        }
    }

    /// A failure with a file, as a failure of the manager.
    pub fn from_atomic(e: AtomicFsError) -> (r: Error)
        ensures
            r == (match e {
                AtomicFsError::UnsafePath(path) => Error::UnsafeRuntimeArtifact(path),
                AtomicFsError::Io(error) => Error::Io(error),
            }),
    {
        match e {
            AtomicFsError::UnsafePath(path) => Error::UnsafeRuntimeArtifact(path),
            AtomicFsError::Io(error) => Error::Io(error),
        }
    }
}

proof fn lemma_ends_in(head: Seq<char>, tail: Seq<char>)
    ensures
        text::has_suffix(head + tail, tail),
{
    let s = head + tail;
    assert(s.subrange(s.len() - tail.len(), s.len() - tail.len() + tail.len()) =~= tail);
}

/// What an error carries stands at the end of what it says.
pub proof fn law_errors_say_what_they_carry(words: String, epoch: u64, source: Box<Error>)
    ensures
        text::has_suffix(error_text(Error::ConfigCheckFailed(words)), words@),
        text::has_suffix(error_text(Error::ConfigNotFound(words)), words@),
        text::has_suffix(error_text(Error::BinaryNotFound(words)), words@),
        text::has_suffix(error_text(Error::InvalidConfig(words)), words@),
        text::has_suffix(error_text(Error::ApplyFailed(words)), words@),
        text::has_suffix(error_text(Error::StopUnconfirmed(words)), words@),
        text::has_suffix(error_text(Error::StartupFailed { stderr_tail: words }), words@),
        text::has_suffix(error_text(Error::StartupTimeout { stderr_tail: words }), words@),
        text::has_suffix(error_text(Error::InvalidHealthPolicy(words)), words@),
        text::has_suffix(error_text(Error::InvalidManagerOptions(words)), words@),
        text::has_suffix(error_text(Error::UnsafeRuntimeArtifact(words)), words@),
        text::has_suffix(error_text(Error::ManagerQuarantined { epoch, reason: words }), words@),
        text::has_suffix(
            error_text(Error::DurabilityUncertain { source, warning: words }),
            words@,
        ),
        error_text(Error::Yaml(words)) == words@,
{
    let w = words@;
    lemma_ends_in("config check failed: "@, w);
    lemma_ends_in("config file not found: "@, w);
    lemma_ends_in("core binary not found: "@, w);
    lemma_ends_in("invalid config: "@, w);
    lemma_ends_in("config apply failed: "@, w);
    lemma_ends_in("core stop is unconfirmed: "@, w);
    lemma_ends_in("core startup failed: "@, w);
    lemma_ends_in("core startup timed out: "@, w);
    lemma_ends_in("invalid health policy: "@, w);
    lemma_ends_in("invalid manager options: "@, w);
    lemma_ends_in("unsafe runtime artifact: "@, w);
    lemma_ends_in(
        "core manager is quarantined by epoch "@ + text::decimal(epoch as nat) + ": "@,
        w,
    );
    lemma_ends_in(error_text(*source) + "; durability is uncertain: "@, w);
}

} // verus!
