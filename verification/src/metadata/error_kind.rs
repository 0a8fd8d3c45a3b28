//! Stable machine-readable classifications of core-manager failures.

use vstd::prelude::*;
use vstd::string::*;

use crate::text::str_eq;

verus! {

#[derive(Debug, Clone, Copy, PartialEq, Eq, Hash, Structural)]
pub enum CoreErrorKind {
    NotStarted,
    AlreadyRunning,
    RevisionConflict,
    Quarantined,
    ConfigCheckFailed,
    ConfigNotFound,
    BinaryNotFound,
    InvalidConfig,
    ControllerMissing,
    ApplyFailed,
    ApplyRollbackFailed,
    StopUnconfirmed,
}

/// The wire string of a classification.
pub open spec fn wire(kind: CoreErrorKind) -> Seq<char> {
    match kind {
        CoreErrorKind::NotStarted => "not_started"@,
        CoreErrorKind::AlreadyRunning => "already_running"@,
        CoreErrorKind::RevisionConflict => "revision_conflict"@,
        CoreErrorKind::Quarantined => "quarantined"@,
        CoreErrorKind::ConfigCheckFailed => "config_check_failed"@,
        CoreErrorKind::ConfigNotFound => "config_not_found"@,
        CoreErrorKind::BinaryNotFound => "binary_not_found"@,
        CoreErrorKind::InvalidConfig => "invalid_config"@,
        CoreErrorKind::ControllerMissing => "controller_missing"@,
        CoreErrorKind::ApplyFailed => "apply_failed"@,
        CoreErrorKind::ApplyRollbackFailed => "apply_rollback_failed"@,
        CoreErrorKind::StopUnconfirmed => "stop_unconfirmed"@,
    }
}

/// Every classification, in order.
pub open spec fn all_kinds() -> Seq<CoreErrorKind> {
    seq![
        CoreErrorKind::NotStarted,
        CoreErrorKind::AlreadyRunning,
        CoreErrorKind::RevisionConflict,
        CoreErrorKind::Quarantined,
        CoreErrorKind::ConfigCheckFailed,
        CoreErrorKind::ConfigNotFound,
        CoreErrorKind::BinaryNotFound,
        CoreErrorKind::InvalidConfig,
        CoreErrorKind::ControllerMissing,
        CoreErrorKind::ApplyFailed,
        CoreErrorKind::ApplyRollbackFailed,
        CoreErrorKind::StopUnconfirmed,
    ]
}

/// No classification is missing from the list.
pub proof fn law_all_kinds_complete(kind: CoreErrorKind)
    ensures
        all_kinds().contains(kind),
{
    let i = match kind {
        CoreErrorKind::NotStarted => 0int,
        CoreErrorKind::AlreadyRunning => 1,
        CoreErrorKind::RevisionConflict => 2,
        CoreErrorKind::Quarantined => 3,
        CoreErrorKind::ConfigCheckFailed => 4,
        CoreErrorKind::ConfigNotFound => 5,
        CoreErrorKind::BinaryNotFound => 6,
        CoreErrorKind::InvalidConfig => 7,
        CoreErrorKind::ControllerMissing => 8,
        CoreErrorKind::ApplyFailed => 9,
        CoreErrorKind::ApplyRollbackFailed => 10,
        CoreErrorKind::StopUnconfirmed => 11,
    };
    assert(all_kinds()[i] == kind);
}

impl CoreErrorKind {
    /// Every classification.
    pub fn all() -> (r: Vec<CoreErrorKind>)
        ensures
            r@ == all_kinds(),
    {
        vec![
            CoreErrorKind::NotStarted,
            CoreErrorKind::AlreadyRunning,
            CoreErrorKind::RevisionConflict,
            CoreErrorKind::Quarantined,
            CoreErrorKind::ConfigCheckFailed,
            CoreErrorKind::ConfigNotFound,
            CoreErrorKind::BinaryNotFound,
            CoreErrorKind::InvalidConfig,
            CoreErrorKind::ControllerMissing,
            CoreErrorKind::ApplyFailed,
            CoreErrorKind::ApplyRollbackFailed,
            CoreErrorKind::StopUnconfirmed,
        ]
    }

    pub fn as_str(&self) -> (r: &'static str)
        ensures
            r@ == wire(*self),
    {
        match self {
            CoreErrorKind::NotStarted => "not_started",
            CoreErrorKind::AlreadyRunning => "already_running",
            CoreErrorKind::RevisionConflict => "revision_conflict",
            CoreErrorKind::Quarantined => "quarantined",
            CoreErrorKind::ConfigCheckFailed => "config_check_failed",
            CoreErrorKind::ConfigNotFound => "config_not_found",
            CoreErrorKind::BinaryNotFound => "binary_not_found",
            CoreErrorKind::InvalidConfig => "invalid_config",
            CoreErrorKind::ControllerMissing => "controller_missing",
            CoreErrorKind::ApplyFailed => "apply_failed",
            CoreErrorKind::ApplyRollbackFailed => "apply_rollback_failed",
            CoreErrorKind::StopUnconfirmed => "stop_unconfirmed",
        }
    }

    /// The classification with this wire string; a string that names none is
    /// not an error.
    pub fn from_wire(value: &str) -> (r: Option<CoreErrorKind>)
        ensures
            match r {
                Some(kind) => wire(kind) == value@,
                None => forall|kind: CoreErrorKind| #[trigger] wire(kind) != value@,
            },
    {
        let kinds = CoreErrorKind::all();
        let mut i: usize = 0;
        while i < kinds.len()
            invariant
                i <= kinds@.len(),
                kinds@ == all_kinds(),
                forall|j: int| 0 <= j < i ==> wire(#[trigger] kinds@[j]) != value@,
            decreases kinds@.len() - i,
        {
            let kind = kinds[i];
            if str_eq(kind.as_str(), value) {
                return Some(kind);
            }
            i += 1;
        }
        assert forall|kind: CoreErrorKind| #[trigger] wire(kind) != value@ by {
            law_all_kinds_complete(kind);
            let j = choose|j: int| 0 <= j < kinds@.len() && kinds@[j] == kind;
            assert(wire(kinds@[j]) != value@);
        }
        None
    }
}

/// Different classifications have different wire strings, so reading a wire
/// string gives back the classification that wrote it.
pub proof fn law_wire_is_injective(a: CoreErrorKind, b: CoreErrorKind)
    ensures
        wire(a) == wire(b) ==> a == b,
{
    reveal_strlit("not_started");
    reveal_strlit("already_running");
    reveal_strlit("revision_conflict");
    reveal_strlit("quarantined");
    reveal_strlit("config_check_failed");
    reveal_strlit("config_not_found");
    reveal_strlit("binary_not_found");
    reveal_strlit("invalid_config");
    reveal_strlit("controller_missing");
    reveal_strlit("apply_failed");
    reveal_strlit("apply_rollback_failed");
    reveal_strlit("stop_unconfirmed");
    assert("not_started"@.len() == 11);
    assert("already_running"@.len() == 15);
    assert("revision_conflict"@.len() == 17);
    assert("quarantined"@.len() == 11);
    assert("config_check_failed"@.len() == 19);
    assert("config_not_found"@.len() == 16);
    assert("binary_not_found"@.len() == 16);
    assert("invalid_config"@.len() == 14);
    assert("controller_missing"@.len() == 18);
    assert("apply_failed"@.len() == 12);
    assert("apply_rollback_failed"@.len() == 21);
    assert("stop_unconfirmed"@.len() == 16);
    assert("not_started"@[0] != "quarantined"@[0]);
    assert("config_not_found"@[0] != "binary_not_found"@[0]);
    assert("config_not_found"@[0] != "stop_unconfirmed"@[0]);
    assert("binary_not_found"@[0] != "stop_unconfirmed"@[0]);
}

} // verus!
