//! Bringing a running core to another configuration without starting it anew.

use vstd::prelude::*;

use crate::clash_api::config;
use crate::clash_api::config::{RuntimeConfig, RuntimeProjection};
use crate::clash_api::error::Error as ApiError;
use crate::config::mihomo::ConfigChange;
use crate::health::probe::ProbeResult;
use crate::value::{Datum, Node};

verus! {

/// How a running core is brought to another configuration.
#[derive(Debug, Clone, Copy, PartialEq, Eq, Structural)]
pub enum InPlaceKind {
    /// It need not be told of anything.
    Nothing,
    /// It cannot.
    Impossible,
    /// It is told of the changed fields.
    Patch,
    /// It reads its file again.
    Reload,
    /// It is only asked whether it is well.
    ProbeOnly,
}

#[derive(Debug, Clone, Copy, PartialEq, Eq, Structural)]
pub enum InPlacePhase {
    Patching,
    Reading,
    Reloading,
    Probing,
    Finished,
}

#[derive(Debug)]
pub enum InPlaceEvent {
    /// The fields were sent.
    Patched(Result<(), ApiError>),
    /// The configuration was asked for.
    Read(Result<RuntimeConfig, ApiError>),
    /// The file was named.
    Reloaded(Result<(), ApiError>),
    Probed(ProbeResult),
    TimedOut,
}

#[derive(Debug, Clone, Copy, PartialEq, Eq, Structural)]
pub enum InPlaceAction {
    /// `PATCH /configs`.
    SendPatch,
    /// `GET /configs`.
    ReadConfig,
    /// `PUT /configs?force=true`.
    SendReload,
    /// Ask for a reconciliation probe.
    Probe,
    Done(bool),
    /// The event does not belong here.
    Ignore,
}

/// Bringing a running core to another configuration. `expected` is what it has to
/// show where it is told of fields.
pub struct InPlaceFlow {
    pub expected: Option<RuntimeProjection>,
    pub phase: InPlacePhase,
}

pub open spec fn change_kind(change: ConfigChange) -> InPlaceKind {
    match change {
        ConfigChange::Noop => InPlaceKind::Nothing,
        ConfigChange::Switch => InPlaceKind::Impossible,
        ConfigChange::Patch { .. } => InPlaceKind::Patch,
        ConfigChange::Reload => InPlaceKind::Reload,
    }
}

/// The kind of a change.
pub fn kind_of(change: &ConfigChange) -> (r: InPlaceKind)
    ensures
        r == change_kind(*change),
{
    match change {
        ConfigChange::Noop => InPlaceKind::Nothing,
        ConfigChange::Switch => InPlaceKind::Impossible,
        ConfigChange::Patch { .. } => InPlaceKind::Patch,
        ConfigChange::Reload => InPlaceKind::Reload,
    }
}

/// A core that was started with less is told of the fields that it lacks, where
/// there are any.
pub open spec fn restoring_kind(restoration: Option<Vec<(Datum, Datum)>>) -> InPlaceKind {
    match restoration {
        Some(_) => InPlaceKind::Patch,
        None => InPlaceKind::ProbeOnly,
    }
}

/// How a core that was started with less is brought to its full configuration.
pub fn restoration_kind(restoration: &Option<Vec<(Datum, Datum)>>) -> (r: InPlaceKind)
    ensures
        r == restoring_kind(*restoration),
{
    match restoration {
        Some(_) => InPlaceKind::Patch,
        None => InPlaceKind::ProbeOnly,
    }
}

/// The running configuration shows what is expected.
pub open spec fn shows(expected: Option<RuntimeProjection>, actual: RuntimeConfig) -> bool {
    match expected {
        Some(projection) => config::agrees(projection@, Node::Table(actual.tree())),
        None => true,
    }
}

/// How it goes on.
pub open spec fn in_place_step(
    pre: InPlaceFlow,
    event: InPlaceEvent,
    post: InPlaceFlow,
    action: InPlaceAction,
) -> bool {
    &&& post.expected == pre.expected
    &&& match (pre.phase, event) {
        (InPlacePhase::Finished, _) => post.phase is Finished && action is Ignore,
        (_, InPlaceEvent::TimedOut) => post.phase is Finished && action == InPlaceAction::Done(
            false,
        ),
        (InPlacePhase::Patching, InPlaceEvent::Patched(_)) => post.phase is Reading && action
            is ReadConfig,
        (InPlacePhase::Reading, InPlaceEvent::Read(Err(_))) => post.phase is Finished && action
            == InPlaceAction::Done(false),
        (InPlacePhase::Reading, InPlaceEvent::Read(Ok(actual))) => if shows(
            pre.expected,
            actual,
        ) {
            post.phase is Probing && action is Probe
        } else {
            post.phase is Finished && action == InPlaceAction::Done(false)
        },
        (InPlacePhase::Reloading, InPlaceEvent::Reloaded(Err(_))) => post.phase is Finished
            && action == InPlaceAction::Done(false),
        (InPlacePhase::Reloading, InPlaceEvent::Reloaded(Ok(()))) => post.phase is Probing
            && action is Probe,
        (InPlacePhase::Probing, InPlaceEvent::Probed(result)) => post.phase is Finished && action
            == InPlaceAction::Done(result is Healthy),
        _ => post.phase == pre.phase && action is Ignore,
    }
}

impl InPlaceFlow {
    pub fn begin(kind: InPlaceKind, expected: Option<RuntimeProjection>) -> (r: (
        InPlaceFlow,
        InPlaceAction,
    ))
        ensures
            r.0.expected == expected,
            match kind {
                InPlaceKind::Nothing => r.0.phase is Finished && r.1 == InPlaceAction::Done(true),
                InPlaceKind::Impossible => r.0.phase is Finished && r.1 == InPlaceAction::Done(
                    false,
                ),
                InPlaceKind::Patch => r.0.phase is Patching && r.1 is SendPatch,
                InPlaceKind::Reload => r.0.phase is Reloading && r.1 is SendReload,
                InPlaceKind::ProbeOnly => r.0.phase is Probing && r.1 is Probe,
            },
    {
        match kind {
            InPlaceKind::Nothing => (
                InPlaceFlow { expected, phase: InPlacePhase::Finished },
                InPlaceAction::Done(true),
            ),
            InPlaceKind::Impossible => (
                InPlaceFlow { expected, phase: InPlacePhase::Finished },
                InPlaceAction::Done(false),
            ),
            InPlaceKind::Patch => (
                InPlaceFlow { expected, phase: InPlacePhase::Patching },
                InPlaceAction::SendPatch,
            ),
            InPlaceKind::Reload => (
                InPlaceFlow { expected, phase: InPlacePhase::Reloading },
                InPlaceAction::SendReload,
            ),
            InPlaceKind::ProbeOnly => (
                InPlaceFlow { expected, phase: InPlacePhase::Probing },
                InPlaceAction::Probe,
            ),
        }
    }

    pub fn step(&mut self, event: InPlaceEvent) -> (r: InPlaceAction)
        ensures
            in_place_step(*old(self), event, *final(self), r),
    {
        match (self.phase, event) {
            (InPlacePhase::Finished, _) => InPlaceAction::Ignore,
            (_, InPlaceEvent::TimedOut) => {
                self.phase = InPlacePhase::Finished;
                InPlaceAction::Done(false)
            },
            (InPlacePhase::Patching, InPlaceEvent::Patched(_)) => {
                self.phase = InPlacePhase::Reading;
                InPlaceAction::ReadConfig
            },
            (InPlacePhase::Reading, InPlaceEvent::Read(Err(_))) => {
                self.phase = InPlacePhase::Finished;
                InPlaceAction::Done(false)
            },
            (InPlacePhase::Reading, InPlaceEvent::Read(Ok(actual))) => {
                let shown = match &self.expected {
                    Some(projection) => projection.verify(&actual),
                    None => true,
                };
                if shown {
                    self.phase = InPlacePhase::Probing;
                    InPlaceAction::Probe
                } else {
                    self.phase = InPlacePhase::Finished;
                    InPlaceAction::Done(false)
                }
            },
            (InPlacePhase::Reloading, InPlaceEvent::Reloaded(Err(_))) => {
                self.phase = InPlacePhase::Finished;
                InPlaceAction::Done(false)
            },
            (InPlacePhase::Reloading, InPlaceEvent::Reloaded(Ok(()))) => {
                self.phase = InPlacePhase::Probing;
                InPlaceAction::Probe
            },
            (InPlacePhase::Probing, InPlaceEvent::Probed(result)) => {
                self.phase = InPlacePhase::Finished;
                InPlaceAction::Done(result.is_healthy())
            },
            _ => InPlaceAction::Ignore,
        }
    }
}

/// A core is taken for reconciled only on a healthy probe, and one that was told of
/// fields is probed only once its configuration shows them, whatever was answered
/// when it was told.
pub proof fn law_reconciled_means_verified(
    pre: InPlaceFlow,
    event: InPlaceEvent,
    post: InPlaceFlow,
    action: InPlaceAction,
)
    requires
        in_place_step(pre, event, post, action),
    ensures
        action == InPlaceAction::Done(true) ==> pre.phase is Probing && (event
            matches InPlaceEvent::Probed(result) && result is Healthy),
        pre.phase is Patching && !(event is TimedOut) && !(action is Ignore) ==> post.phase
            is Reading,
        pre.phase is Reading && post.phase is Probing ==> (event matches InPlaceEvent::Read(
            Ok(actual),
        ) && shows(pre.expected, actual)),
{
}

} // verus!
