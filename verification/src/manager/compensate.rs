//! Restarting a core in its own epoch with another configuration, and going back
//! to the one it ran where that fails.

use vstd::prelude::*;
use vstd::string::*;

use crate::config::runtime_store::RuntimeConfigCommit;
use crate::error;
use crate::error::Error;
use crate::manager::apply;
use crate::manager::apply::{
    push_warning, wrap_apply_warnings, ApplyOutcome, CompensateRequest,
};
use crate::manager::ctrl;
use crate::manager::ctrl::{Active, ManagerState};
use crate::manager::launch::{LaunchEnd, LaunchRequest, LaunchRole};
use crate::manager::start;
use crate::manager::start::plan;
use crate::manager::stop;
use crate::state::{ConfigRevision, CoreState, InstanceStatus};
use crate::value;

verus! {

pub enum CompensatePhase {
    StoppingOld { old_active: Active },
    Launching { old_active: Active, desired: Active },
    Restoring { old_active: Active, apply: Error },
    Relaunching { old_active: Active, apply: Error },
    /// The copy is removed: one of the two configurations runs.
    RemovingBackup { outcome: ApplyOutcome },
    Finished,
}

pub enum CompensateEvent {
    Stopped(Result<(), Error>),
    Launched(LaunchEnd),
    Restored(Result<RuntimeConfigCommit, Error>),
    BackupRemoved(Result<(), Error>),
}

pub enum CompensateAction {
    /// Stop forwarding its news, then stop the instance and confirm its death.
    StopOld { epoch: u64 },
    Launch(LaunchRequest),
    /// Put the copy back in its place.
    Restore,
    RemoveBackup,
    Done(Result<ApplyOutcome, Error>),
    /// The event does not belong here.
    Ignore,
}

pub struct CompensateFlow {
    pub request: CompensateRequest,
    pub phase: CompensatePhase,
}

/// What stays the same throughout.
pub open spec fn same_request(a: CompensateRequest, b: CompensateRequest) -> bool {
    a.store == b.store && a.input == b.input && a.plan == b.plan && a.backup == b.backup
}

/// How a restart begins.
pub open spec fn compensate_begun(
    pre: ManagerState,
    flow: CompensateFlow,
    post: ManagerState,
    action: CompensateAction,
) -> bool {
    match pre.ctrl.current {
        None => post == pre && flow.phase is Finished && (action matches CompensateAction::Done(
            Err(e),
        ) && e is NotStarted),
        Some(active) => {
            &&& stop::let_go(pre, post)
            &&& post.status == pre.status
            &&& flow.phase == (CompensatePhase::StoppingOld { old_active: active })
            &&& action == (CompensateAction::StopOld { epoch: active.revision.epoch })
        },
    }
}

/// Why a launch failed; none where it did not.
pub open spec fn launch_error(end: LaunchEnd) -> Option<Error> {
    match end {
        LaunchEnd::Ready(_) => None,
        LaunchEnd::Refused(e) => Some(e),
        LaunchEnd::Rejected(e) => Some(e),
        LaunchEnd::Unstopped(e) => Some(e),
    }
}

/// The epoch with the desired configuration.
pub open spec fn desired_epoch(
    request: CompensateRequest,
    old_active: Active,
    desired: Active,
) -> bool {
    &&& desired.revision == apply::next_revision(old_active.revision, request.plan.candidate)
    &&& value::entries(desired.source_document@) == request.plan.snapshot.table()
    &&& start::planned(
        request.input,
        request.plan.features,
        desired.source_document,
        request.plan.candidate,
        request.store.root(),
        desired.revision,
        desired,
    )
}

/// Nothing runs, and the status says why.
pub open spec fn gives_up(
    before: ManagerState,
    apply: Seq<char>,
    rollback: Seq<char>,
    after: ManagerState,
    action: CompensateAction,
    now_ms: i64,
) -> bool {
    &&& action matches CompensateAction::Done(
        Err(Error::ApplyRollbackFailed { apply: a, rollback: b }),
    ) && a@ == apply && b@ == rollback && ctrl::failed(
        after.status,
        error::error_text(Error::ApplyRollbackFailed { apply: a, rollback: b }),
    )
    &&& ctrl::only_status(before, after)
    &&& ctrl::stamped(before.status, after.status, now_ms)
}

/// What is said where neither configuration runs and a core may still do.
pub open spec fn stuck_words(apply: Error, rollback: Error) -> Seq<char> {
    "desired apply failed ("@ + error::error_text(apply) + "); rollback replacement "@
        + error::error_text(rollback)
}

/// How a restart goes on.
pub open spec fn compensate_step(
    pre: CompensateFlow,
    before: ManagerState,
    event: CompensateEvent,
    post: CompensateFlow,
    after: ManagerState,
    action: CompensateAction,
    now_ms: i64,
) -> bool {
    &&& same_request(pre.request, post.request)
    &&& match (pre.phase, event) {
        (CompensatePhase::StoppingOld { old_active }, CompensateEvent::Stopped(Err(e))) => {
            &&& ctrl::latched(
                before,
                old_active.revision.epoch,
                error::error_text(e),
                after,
                now_ms,
            )
            &&& post.phase is Finished
            &&& action == CompensateAction::Done(Err(e))
        },
        (CompensatePhase::StoppingOld { old_active }, CompensateEvent::Stopped(Ok(()))) => {
            &&& post.request.warnings == pre.request.warnings
            &&& post.phase matches CompensatePhase::Launching { old_active: o, desired } && {
                &&& o == old_active
                &&& desired_epoch(pre.request, old_active, desired)
                &&& start::tells(
                    before,
                    desired,
                    CoreState::Restarting { epoch: old_active.revision.epoch, attempt: 0 },
                    after,
                    now_ms,
                )
                &&& after.status.health is None
                &&& action == CompensateAction::Launch(
                    start::request_of(desired, LaunchRole::Replacement),
                )
            }
        },
        (CompensatePhase::Launching { old_active, desired }, CompensateEvent::Launched(end)) =>
        match end {
            LaunchEnd::Ready(status) => {
                &&& post.request.warnings == pre.request.warnings
                &&& start::installed(before, desired, status, after, now_ms)
                &&& post.phase == (CompensatePhase::RemovingBackup {
                    outcome: ApplyOutcome::Restarted { revision: desired.revision },
                })
                &&& action is RemoveBackup
            },
            _ => {
                let e = launch_error(end)->0;
                if e is StopUnconfirmed {
                    &&& ctrl::latched(
                        before,
                        old_active.revision.epoch,
                        error::error_text(e),
                        after,
                        now_ms,
                    )
                    &&& post.phase is Finished
                    &&& action == CompensateAction::Done(Err(e))
                } else {
                    &&& after == before
                    &&& post.request.warnings == pre.request.warnings
                    &&& post.phase == (CompensatePhase::Restoring { old_active, apply: e })
                    &&& action is Restore
                }
            },
        },
        (CompensatePhase::Restoring { old_active, apply }, CompensateEvent::Restored(Err(e))) => {
            &&& gives_up(
                before,
                error::error_text(apply),
                apply::restore_words(e),
                after,
                action,
                now_ms,
            )
            &&& post.phase is Finished
        },
        (
            CompensatePhase::Restoring { old_active, apply },
            CompensateEvent::Restored(Ok(commit)),
        ) => {
            &&& apply::warned(pre.request.warnings@, commit, post.request.warnings@)
            &&& start::tells(
                before,
                old_active,
                CoreState::Restarting { epoch: old_active.revision.epoch, attempt: 0 },
                after,
                now_ms,
            )
            &&& after.status.health is None
            &&& post.phase == (CompensatePhase::Relaunching { old_active, apply })
            &&& action == CompensateAction::Launch(
                start::request_of(old_active, LaunchRole::Replacement),
            )
        },
        (CompensatePhase::Relaunching { old_active, apply }, CompensateEvent::Launched(end)) =>
        match end {
            LaunchEnd::Ready(status) => {
                &&& post.request.warnings == pre.request.warnings
                &&& start::installed(before, old_active, status, after, now_ms)
                &&& post.phase matches CompensatePhase::RemovingBackup {
                    outcome: ApplyOutcome::RolledBack { revision, failed_apply },
                } && revision == old_active.revision && failed_apply@ == error::error_text(apply)
                &&& action is RemoveBackup
            },
            _ => {
                let e = launch_error(end)->0;
                &&& post.phase is Finished
                &&& if e is StopUnconfirmed {
                    action matches CompensateAction::Done(Err(Error::StopUnconfirmed(m))) && m@
                        == stuck_words(apply, e) && ctrl::latched(
                        before,
                        old_active.revision.epoch,
                        error::error_text(Error::StopUnconfirmed(m)),
                        after,
                        now_ms,
                    )
                } else {
                    gives_up(
                        before,
                        error::error_text(apply),
                        error::error_text(e),
                        after,
                        action,
                        now_ms,
                    )
                }
            },
        },
        (CompensatePhase::RemovingBackup { outcome }, CompensateEvent::BackupRemoved(_)) => {
            &&& after == before
            &&& post.phase is Finished
            &&& action == CompensateAction::Done(
                Ok(apply::wrapped(outcome, pre.request.warnings@)),
            )
        },
        _ => after == before && post == pre && action is Ignore,
    }
}

fn stuck(apply: &Error, rollback: &Error) -> (r: Error)
    ensures
        r matches Error::StopUnconfirmed(m) && m@ == stuck_words(*apply, *rollback),
{
    let mut words = "desired apply failed (".to_owned();
    words.append(apply.message().as_str());
    words.append("); rollback replacement ");
    words.append(rollback.message().as_str());
    Error::StopUnconfirmed(words)
}

fn restore_failure(e: &Error) -> (r: String)
    ensures
        r@ == apply::restore_words(*e),
{
    let mut words = "runtime restore failed: ".to_owned();
    words.append(e.message().as_str());
    words
}

fn split_end(end: LaunchEnd) -> (r: Result<InstanceStatus, Error>)
    ensures
        match end {
            LaunchEnd::Ready(status) => r == Ok::<InstanceStatus, Error>(status),
            _ => r is Err && Some(r->Err_0) == launch_error(end),
        },
{
    match end {
        LaunchEnd::Ready(status) => Ok(status),
        LaunchEnd::Refused(e) => Err(e),
        LaunchEnd::Rejected(e) => Err(e),
        LaunchEnd::Unstopped(e) => Err(e),
    }
}

impl CompensateFlow {
    /// Until the old core was stopped there has to be a next generation.
    pub open spec fn wf(&self) -> bool {
        self.phase matches CompensatePhase::StoppingOld { old_active }
            ==> old_active.revision.generation < u64::MAX
    }

    pub fn begin(state: &mut ManagerState, request: CompensateRequest) -> (r: (
        CompensateFlow,
        CompensateAction,
    ))
        requires
            old(state).ctrl.current matches Some(a) ==> a.revision.generation < u64::MAX,
        ensures
            r.0.request == request,
            r.0.wf(),
            compensate_begun(*old(state), r.0, *final(state), r.1),
    {
        let mut current: Option<Active> = None;
        core::mem::swap(&mut state.ctrl.current, &mut current);
        match current {
            None => (
                CompensateFlow { request, phase: CompensatePhase::Finished },
                CompensateAction::Done(Err(Error::NotStarted)),
            ),
            Some(old_active) => {
                let epoch = old_active.revision.epoch;
                (
                    CompensateFlow { request, phase: CompensatePhase::StoppingOld { old_active } },
                    CompensateAction::StopOld { epoch },
                )
            },
        }
    }

    fn give_up(state: &mut ManagerState, apply: String, rollback: String, now_ms: i64) -> (r:
        CompensateAction)
        ensures
            gives_up(*old(state), apply@, rollback@, *final(state), r, now_ms),
    {
        let e = Error::ApplyRollbackFailed { apply, rollback };
        state.publish_error(&e, now_ms);
        CompensateAction::Done(Err(e))
    }

    fn desire(&self, old_active: &Active) -> (r: Active)
        requires
            old_active.revision.generation < u64::MAX,
        ensures
            desired_epoch(self.request, *old_active, r),
    {
        let candidate = &self.request.plan.candidate;
        let revision = ConfigRevision {
            epoch: old_active.revision.epoch,
            generation: old_active.revision.generation + 1,
            source_hash: candidate.source_hash.clone(),
            effective_hash: candidate.effective_hash.clone(),
            runtime_path: old_active.revision.runtime_path.clone(),
        };
        let document = self.request.plan.snapshot.document().clone();
        plan(
            &self.request.input,
            &self.request.plan.features,
            &document,
            candidate,
            &self.request.store,
            revision,
        )
    }

    pub fn step(&mut self, state: &mut ManagerState, event: CompensateEvent, now_ms: i64) -> (r:
        CompensateAction)
        requires
            old(self).wf(),
        ensures
            final(self).wf(),
            compensate_step(
                *old(self),
                *old(state),
                event,
                *final(self),
                *final(state),
                r,
                now_ms,
            ),
    {
        let mut phase = CompensatePhase::Finished;
        core::mem::swap(&mut self.phase, &mut phase);
        match (phase, event) {
            (CompensatePhase::StoppingOld { old_active }, CompensateEvent::Stopped(Err(e))) => {
                state.latch_quarantine(old_active.revision.epoch, &e, now_ms);
                CompensateAction::Done(Err(e))
            },
            (CompensatePhase::StoppingOld { old_active }, CompensateEvent::Stopped(Ok(()))) => {
                let desired = self.desire(&old_active);
                state.announce(
                    &desired,
                    CoreState::Restarting { epoch: old_active.revision.epoch, attempt: 0 },
                    now_ms,
                );
                let request = desired.request(LaunchRole::Replacement);
                self.phase = CompensatePhase::Launching { old_active, desired };
                CompensateAction::Launch(request)
            },
            (CompensatePhase::Launching { old_active, desired }, CompensateEvent::Launched(end)) => {
                match split_end(end) {
                    Ok(status) => {
                        let revision = desired.revision.copy();
                        state.install(desired, status, now_ms);
                        self.phase = CompensatePhase::RemovingBackup {
                            outcome: ApplyOutcome::Restarted { revision },
                        };
                        CompensateAction::RemoveBackup
                    },
                    Err(e) => {
                        let unsure = matches!(&e, Error::StopUnconfirmed(_));
                        if unsure {
                            state.latch_quarantine(old_active.revision.epoch, &e, now_ms);
                            CompensateAction::Done(Err(e))
                        } else {
                            self.phase = CompensatePhase::Restoring { old_active, apply: e };
                            CompensateAction::Restore
                        }
                    },
                }
            },
            (CompensatePhase::Restoring { apply, .. }, CompensateEvent::Restored(Err(e))) =>
            CompensateFlow::give_up(state, apply.message(), restore_failure(&e), now_ms),
            (
                CompensatePhase::Restoring { old_active, apply },
                CompensateEvent::Restored(Ok(commit)),
            ) => {
                push_warning(&mut self.request.warnings, &commit);
                state.announce(
                    &old_active,
                    CoreState::Restarting { epoch: old_active.revision.epoch, attempt: 0 },
                    now_ms,
                );
                let request = old_active.request(LaunchRole::Replacement);
                self.phase = CompensatePhase::Relaunching { old_active, apply };
                CompensateAction::Launch(request)
            },
            (CompensatePhase::Relaunching { old_active, apply }, CompensateEvent::Launched(end)) => {
                match split_end(end) {
                    Ok(status) => {
                        let revision = old_active.revision.copy();
                        state.install(old_active, status, now_ms);
                        self.phase = CompensatePhase::RemovingBackup {
                            outcome: ApplyOutcome::RolledBack {
                                revision,
                                failed_apply: apply.message(),
                            },
                        };
                        CompensateAction::RemoveBackup
                    },
                    Err(e) => {
                        let unsure = matches!(&e, Error::StopUnconfirmed(_));
                        if unsure {
                            let error = stuck(&apply, &e);
                            state.latch_quarantine(old_active.revision.epoch, &error, now_ms);
                            CompensateAction::Done(Err(error))
                        } else {
                            CompensateFlow::give_up(state, apply.message(), e.message(), now_ms)
                        }
                    },
                }
            },
            (CompensatePhase::RemovingBackup { outcome }, CompensateEvent::BackupRemoved(_)) =>
            CompensateAction::Done(Ok(wrap_apply_warnings(outcome, &self.request.warnings))),
            (phase, _) => {
                self.phase = phase;
                CompensateAction::Ignore
            },
        }
    }
}

// ---------------------------------------------------------------------------
// Laws
// ---------------------------------------------------------------------------

/// A restart that goes back runs the earlier revision again, and says so.
pub proof fn law_rollback_restores_the_revision(
    pre: CompensateFlow,
    before: ManagerState,
    status: InstanceStatus,
    post: CompensateFlow,
    after: ManagerState,
    action: CompensateAction,
    now_ms: i64,
)
    requires
        compensate_step(
            pre,
            before,
            CompensateEvent::Launched(LaunchEnd::Ready(status)),
            post,
            after,
            action,
            now_ms,
        ),
        pre.phase is Relaunching,
    ensures
        after.ctrl.current == Some(pre.phase->Relaunching_old_active),
        after.status.revision == Some(pre.phase->Relaunching_old_active.revision),
        after.status.state is Running,
        post.phase matches CompensatePhase::RemovingBackup {
            outcome: ApplyOutcome::RolledBack { revision, .. },
        } && revision == pre.phase->Relaunching_old_active.revision,
{
}

/// A restart never begins another epoch.
pub proof fn law_restart_keeps_the_epoch(
    pre: CompensateFlow,
    before: ManagerState,
    event: CompensateEvent,
    post: CompensateFlow,
    after: ManagerState,
    action: CompensateAction,
    now_ms: i64,
)
    requires
        compensate_step(pre, before, event, post, after, action, now_ms),
    ensures
        after.epoch == before.epoch,
        (post.phase matches CompensatePhase::Launching { old_active, desired } && (pre.phase
            is StoppingOld ==> desired.revision.epoch == old_active.revision.epoch)) || !(post.phase
            is Launching),
{
}

/// An epoch is quarantined where it may still run, and nowhere else: where the old
/// core did not stop, or a core that did not become ready did not.
pub proof fn law_uncertain_restart_quarantines(
    pre: CompensateFlow,
    before: ManagerState,
    event: CompensateEvent,
    post: CompensateFlow,
    after: ManagerState,
    action: CompensateAction,
    now_ms: i64,
)
    requires
        compensate_step(pre, before, event, post, after, action, now_ms),
    ensures
        uncertain(pre, event) ==> after.ctrl.quarantine@.len() > 0 && after.ctrl.current
            == before.ctrl.current && action is Done,
        !uncertain(pre, event) ==> after.ctrl.quarantine == before.ctrl.quarantine,
{
    assert(ctrl::quarantined(after.ctrl.quarantine@).len() == after.ctrl.quarantine@.len());
}

/// The event leaves open whether a core still runs.
pub open spec fn uncertain(pre: CompensateFlow, event: CompensateEvent) -> bool {
    match (pre.phase, event) {
        (CompensatePhase::StoppingOld { .. }, CompensateEvent::Stopped(result)) => result is Err,
        (CompensatePhase::Launching { .. }, CompensateEvent::Launched(end)) => launch_error(
            end,
        ) matches Some(e) && e is StopUnconfirmed,
        (CompensatePhase::Relaunching { .. }, CompensateEvent::Launched(end)) => launch_error(
            end,
        ) matches Some(e) && e is StopUnconfirmed,
        _ => false,
    }
}

} // verus!
