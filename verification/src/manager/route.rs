//! Which way a request goes: a start, a change in place, or a switch.

use std::sync::Arc;

use vstd::prelude::*;
use vstd::string::*;

use crate::capability::ResolvedFeatures;
use crate::config::mihomo;
use crate::config::mihomo::overlap_block;
use crate::config::snapshot::ConfigSnapshot;
use crate::error::Error;
use crate::manager::apply::ApplyOutcome;
use crate::manager::ctrl;
use crate::manager::ctrl::{reject_quarantine, Ctrl};
use crate::manager::switch;
use crate::manager::switch::{graceful_degrade_reason, DegradeReason, SwitchOutcome};
use crate::spec::{InstanceSpec, LocalIpcPolicy};
use crate::state::{CoreStatus, RevisionId};

verus! {

pub open spec fn held(ctrl: Ctrl) -> Seq<ctrl::Quarantined> {
    ctrl::quarantined(ctrl.quarantine@)
}

/// What a restart starts: what runs, else what was last asked for.
pub fn restart_spec(ctrl: &Ctrl) -> (r: Result<Arc<InstanceSpec>, Error>)
    ensures
        if ctrl.quarantine@.len() > 0 {
            r is Err && ctrl::answers_quarantined(held(*ctrl), r->Err_0)
        } else {
            match (ctrl.current, ctrl.last_spec) {
                (Some(active), _) => r == Ok::<Arc<InstanceSpec>, Error>(active.source_spec),
                (None, Some(spec)) => r == Ok::<Arc<InstanceSpec>, Error>(spec),
                (None, None) => r matches Err(e) && e is NotStarted,
            }
        },
{
    match reject_quarantine(ctrl) {
        Err(e) => {
            return Err(e);
        },
        Ok(()) => {},
    }
    match (&ctrl.current, &ctrl.last_spec) {
        (Some(active), _) => Ok(active.source_spec.clone()),
        (None, Some(spec)) => Ok(spec.clone()),
        (None, None) => Err(Error::NotStarted),
    }
}

/// The epoch that is probed.
pub fn probe_reconcile(ctrl: &Ctrl) -> (r: Result<u64, Error>)
    ensures
        if ctrl.quarantine@.len() > 0 {
            r is Err && ctrl::answers_quarantined(held(*ctrl), r->Err_0)
        } else {
            match ctrl.current {
                Some(active) => r == Ok::<u64, Error>(active.revision.epoch),
                None => r matches Err(e) && e is NotStarted,
            }
        },
{
    match reject_quarantine(ctrl) {
        Err(e) => {
            return Err(e);
        },
        Ok(()) => {},
    }
    match &ctrl.current {
        Some(active) => Ok(active.revision.epoch),
        None => Err(Error::NotStarted),
    }
}

/// Whether it is worth a warning that the core is controlled over HTTP.
pub fn warns_of_http_fallback(policy: LocalIpcPolicy, rewrote_controller: bool) -> (r: bool)
    ensures
        r == (policy is Prefer && !rewrote_controller),
{
    policy == LocalIpcPolicy::Prefer && !rewrote_controller
}

// ---------------------------------------------------------------------------
// Converging
// ---------------------------------------------------------------------------

#[derive(Debug, Clone, Copy, PartialEq, Eq, Structural)]
pub enum ReconcileRoute {
    /// The configuration is applied to what runs.
    Apply,
    Start,
}

/// Which way a desired state is reached. `terminal` says that the current instance
/// has ended.
pub open spec fn reconcile_routed(
    ctrl: Ctrl,
    terminal: bool,
    expected: Option<RevisionId>,
    r: Result<ReconcileRoute, Error>,
) -> bool {
    if ctrl.quarantine@.len() > 0 {
        r is Err && ctrl::answers_quarantined(held(ctrl), r->Err_0)
    } else if ctrl.current is Some && !terminal {
        r == Ok::<ReconcileRoute, Error>(ReconcileRoute::Apply)
    } else {
        match expected {
            Some(expected) => r == Err::<ReconcileRoute, Error>(
                Error::RevisionConflict { expected, actual: None },
            ),
            None => r == Ok::<ReconcileRoute, Error>(ReconcileRoute::Start),
        }
    }
}

pub fn reconcile_route(ctrl: &Ctrl, terminal: bool, expected: &Option<RevisionId>) -> (r: Result<
    ReconcileRoute,
    Error,
>)
    ensures
        reconcile_routed(*ctrl, terminal, *expected, r),
{
    match reject_quarantine(ctrl) {
        Err(e) => {
            return Err(e);
        },
        Ok(()) => {},
    }
    if ctrl.current.is_some() && !terminal {
        return Ok(ReconcileRoute::Apply);
    }
    match expected {
        Some(expected) => Err(
            Error::RevisionConflict { expected: expected.copy(), actual: None },
        ),
        None => Ok(ReconcileRoute::Start),
    }
}

/// What a start that reached the desired state is answered with.
pub fn started(status: &CoreStatus) -> (r: Result<ApplyOutcome, Error>)
    ensures
        match status.revision {
            Some(revision) => r == Ok::<ApplyOutcome, Error>(ApplyOutcome::Started { revision }),
            None => r matches Err(Error::ApplyFailed(m)) && m@ == "started epoch has no revision"@,
        },
{
    match &status.revision {
        Some(revision) => Ok(ApplyOutcome::Started { revision: revision.copy() }),
        None => Err(Error::ApplyFailed("started epoch has no revision".to_owned())),
    }
}

// ---------------------------------------------------------------------------
// Switching
// ---------------------------------------------------------------------------

pub enum SwitchPhase {
    Inspecting,
    Stopping { reason: DegradeReason },
    Starting { reason: DegradeReason },
    Finished,
}

pub enum SwitchEvent {
    /// What the new core can do, and its configuration.
    Inspected(Result<(ResolvedFeatures, Arc<ConfigSnapshot>), Error>),
    Stopped(Result<(), Error>),
    Started(Result<(), Error>),
}

pub enum SwitchAction {
    /// Load the configuration, and find out what the new core can do.
    Inspect,
    Stop,
    Start,
    /// The two cores run side by side for a while.
    Graceful { features: ResolvedFeatures, snapshot: Arc<ConfigSnapshot> },
    Done(Result<SwitchOutcome, Error>),
    /// The event does not belong here.
    Ignore,
}

/// A switch to a core of the given specification.
pub struct SwitchFlow {
    pub spec: Arc<InstanceSpec>,
    pub phase: SwitchPhase,
}

/// How a switch begins. `terminal` says that the current instance has ended.
pub open spec fn switch_begun(
    ctrl: Ctrl,
    terminal: bool,
    flow: SwitchFlow,
    action: SwitchAction,
) -> bool {
    if ctrl.quarantine@.len() > 0 {
        &&& flow.phase is Finished
        &&& action matches SwitchAction::Done(Err(e)) && ctrl::answers_quarantined(held(ctrl), e)
    } else if ctrl.current is None {
        &&& flow.phase == (SwitchPhase::Starting { reason: DegradeReason::NotRunning })
        &&& action is Start
    } else if terminal {
        &&& flow.phase == (SwitchPhase::Stopping { reason: DegradeReason::NotRunning })
        &&& action is Stop
    } else {
        &&& flow.phase is Inspecting
        &&& action is Inspect
    }
}

/// Why the switch cannot be a graceful one, if it cannot.
pub open spec fn reason_of(
    spec: InstanceSpec,
    features: ResolvedFeatures,
    snapshot: ConfigSnapshot,
) -> Option<DegradeReason> {
    switch::degrade_reason(
        features.runtime.local_ipc,
        spec.core.kind,
        mihomo::block(snapshot.table()),
    )
}

/// How a switch goes on.
pub open spec fn switch_step(
    pre: SwitchFlow,
    event: SwitchEvent,
    post: SwitchFlow,
    action: SwitchAction,
) -> bool {
    &&& post.spec == pre.spec
    &&& match (pre.phase, event) {
        (SwitchPhase::Inspecting, SwitchEvent::Inspected(Err(e))) => post.phase is Finished
            && action == SwitchAction::Done(Err(e)),
        (SwitchPhase::Inspecting, SwitchEvent::Inspected(Ok((features, snapshot)))) => match reason_of(
            *pre.spec,
            features,
            *snapshot,
        ) {
            Some(reason) => post.phase == (SwitchPhase::Stopping { reason }) && action is Stop,
            None => post.phase is Finished && action == (SwitchAction::Graceful {
                features,
                snapshot,
            }),
        },
        (SwitchPhase::Stopping { reason }, SwitchEvent::Stopped(Ok(()))) => post.phase == (
        SwitchPhase::Starting { reason }) && action is Start,
        (SwitchPhase::Stopping { reason }, SwitchEvent::Stopped(Err(e))) => post.phase is Finished
            && action == SwitchAction::Done(Err(e)),
        (SwitchPhase::Starting { reason }, SwitchEvent::Started(Ok(()))) => post.phase is Finished
            && action == SwitchAction::Done(Ok(SwitchOutcome::Hard { reason })),
        (SwitchPhase::Starting { reason }, SwitchEvent::Started(Err(e))) => post.phase is Finished
            && action == SwitchAction::Done(Err(e)),
        _ => post == pre && action is Ignore,
    }
}

impl SwitchFlow {
    pub fn begin(ctrl: &Ctrl, terminal: bool, spec: Arc<InstanceSpec>) -> (r: (
        SwitchFlow,
        SwitchAction,
    ))
        ensures
            r.0.spec == spec,
            switch_begun(*ctrl, terminal, r.0, r.1),
    {
        match reject_quarantine(ctrl) {
            Err(e) => {
                return (
                    SwitchFlow { spec, phase: SwitchPhase::Finished },
                    SwitchAction::Done(Err(e)),
                );
            },
            Ok(()) => {},
        }
        if ctrl.current.is_none() {
            let phase = SwitchPhase::Starting { reason: DegradeReason::NotRunning };
            return (SwitchFlow { spec, phase }, SwitchAction::Start);
        }
        if terminal {
            let phase = SwitchPhase::Stopping { reason: DegradeReason::NotRunning };
            return (SwitchFlow { spec, phase }, SwitchAction::Stop);
        }
        (SwitchFlow { spec, phase: SwitchPhase::Inspecting }, SwitchAction::Inspect)
    }

    pub fn step(&mut self, event: SwitchEvent) -> (r: SwitchAction)
        ensures
            switch_step(*old(self), event, *final(self), r),
    {
        let mut phase = SwitchPhase::Finished;
        core::mem::swap(&mut self.phase, &mut phase);
        match (phase, event) {
            (SwitchPhase::Inspecting, SwitchEvent::Inspected(Err(e))) => SwitchAction::Done(
                Err(e),
            ),
            (SwitchPhase::Inspecting, SwitchEvent::Inspected(Ok((features, snapshot)))) => {
                let block = overlap_block(snapshot.document());
                let reason = graceful_degrade_reason(
                    features.runtime.local_ipc,
                    self.spec.core.kind,
                    block,
                );
                match reason {
                    Some(reason) => {
                        self.phase = SwitchPhase::Stopping { reason };
                        SwitchAction::Stop
                    },
                    None => SwitchAction::Graceful { features, snapshot },
                }
            },
            (SwitchPhase::Stopping { reason }, SwitchEvent::Stopped(Ok(()))) => {
                self.phase = SwitchPhase::Starting { reason };
                SwitchAction::Start
            },
            (SwitchPhase::Stopping { .. }, SwitchEvent::Stopped(Err(e))) => SwitchAction::Done(
                Err(e),
            ),
            (SwitchPhase::Starting { reason }, SwitchEvent::Started(Ok(()))) => SwitchAction::Done(
                Ok(SwitchOutcome::Hard { reason }),
            ),
            (SwitchPhase::Starting { .. }, SwitchEvent::Started(Err(e))) => SwitchAction::Done(
                Err(e),
            ),
            (phase, _) => {
                self.phase = phase;
                SwitchAction::Ignore
            },
        }
    }
}

// ---------------------------------------------------------------------------
// Laws
// ---------------------------------------------------------------------------

/// While an epoch is quarantined every request is answered with it: nothing is
/// restarted, probed, converged or switched.
pub proof fn law_quarantine_answers_every_request(
    ctrl: Ctrl,
    terminal: bool,
    expected: Option<RevisionId>,
    route: Result<ReconcileRoute, Error>,
    flow: SwitchFlow,
    action: SwitchAction,
)
    requires
        ctrl.quarantine@.len() > 0,
        reconcile_routed(ctrl, terminal, expected, route),
        switch_begun(ctrl, terminal, flow, action),
    ensures
        route is Err && ctrl::answers_quarantined(held(ctrl), route->Err_0),
        action matches SwitchAction::Done(Err(e)) && ctrl::answers_quarantined(held(ctrl), e),
{
}

/// A running core is stopped before its successor is started only where the two
/// cannot run side by side.
pub proof fn law_hard_switches_have_a_reason(
    pre: SwitchFlow,
    features: ResolvedFeatures,
    snapshot: Arc<ConfigSnapshot>,
    post: SwitchFlow,
    action: SwitchAction,
)
    requires
        pre.phase is Inspecting,
        switch_step(pre, SwitchEvent::Inspected(Ok((features, snapshot))), post, action),
    ensures
        action is Stop <==> reason_of(*pre.spec, features, *snapshot) is Some,
        action is Graceful <==> features.runtime.local_ipc && pre.spec.core.kind is Mihomo
            && mihomo::block(snapshot.table()) is None,
{
}

} // verus!
