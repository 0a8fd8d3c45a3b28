//! Stopping the core.

use vstd::prelude::*;

use crate::error;
use crate::error::Error;
use crate::manager::ctrl;
use crate::manager::ctrl::{Active, ManagerState};
use crate::state::{CoreState, CoreStatus, StopReason};

verus! {

#[derive(Debug, Clone, Copy, PartialEq, Eq, Structural)]
pub enum StopPhase {
    Stopping { epoch: u64 },
    Cleaning { epoch: u64 },
    Finished,
}

#[derive(Debug)]
pub enum StopEvent {
    /// The instance was stopped, and its death confirmed.
    Stopped(Result<(), Error>),
    /// The artifacts of the epoch were removed.
    Cleaned(Result<(), Error>),
}

#[derive(Debug)]
pub enum StopAction {
    /// Stop forwarding its news, then stop the instance and confirm its death.
    StopInstance { epoch: u64 },
    Cleanup { epoch: u64 },
    Done(Result<(), Error>),
    /// The event does not belong here.
    Ignore,
}

#[derive(Debug, Clone, Copy, PartialEq, Eq, Structural)]
pub struct StopFlow {
    pub phase: StopPhase,
}

/// The manager runs nothing; all else is as before, but for the status.
pub open spec fn let_go(pre: ManagerState, post: ManagerState) -> bool {
    &&& post.ctrl.current is None
    &&& post.ctrl.last_spec == pre.ctrl.last_spec
    &&& post.ctrl.quarantine == pre.ctrl.quarantine
    &&& post.epoch == pre.epoch
}

/// How stopping begins.
pub open spec fn stop_begun(
    pre: ManagerState,
    flow: StopFlow,
    post: ManagerState,
    action: StopAction,
    now_ms: i64,
) -> bool {
    match pre.ctrl.current {
        None => post == pre && flow.phase is Finished && (action matches StopAction::Done(Err(e))
            && e is NotStarted),
        Some(active) => {
            let epoch = active.revision.epoch;
            &&& let_go(pre, post)
            &&& post.status == (CoreStatus {
                state: CoreState::Stopping { epoch },
                changed_at: now_ms,
                ..pre.status
            })
            &&& flow.phase == (StopPhase::Stopping { epoch })
            &&& action == (StopAction::StopInstance { epoch })
        },
    }
}

/// How stopping goes on.
pub open spec fn stop_step(
    pre: StopFlow,
    before: ManagerState,
    event: StopEvent,
    post: StopFlow,
    after: ManagerState,
    action: StopAction,
    now_ms: i64,
) -> bool {
    match (pre.phase, event) {
        (StopPhase::Stopping { epoch }, StopEvent::Stopped(Err(e))) => {
            &&& ctrl::latched(before, epoch, error::error_text(e), after, now_ms)
            &&& post.phase is Finished
            &&& action == StopAction::Done(Err(e))
        },
        (StopPhase::Stopping { epoch }, StopEvent::Stopped(Ok(()))) => {
            &&& after == before
            &&& post.phase == (StopPhase::Cleaning { epoch })
            &&& action == (StopAction::Cleanup { epoch })
        },
        (StopPhase::Cleaning { epoch }, StopEvent::Cleaned(Err(e))) => {
            &&& after == before
            &&& post.phase is Finished
            &&& action == StopAction::Done(Err(e))
        },
        (StopPhase::Cleaning { epoch }, StopEvent::Cleaned(Ok(()))) => {
            &&& ctrl::only_status(before, after)
            &&& after.status.state == (CoreState::Stopped { reason: Some(StopReason::User) })
            &&& ctrl::cleared(after.status)
            &&& ctrl::stamped(before.status, after.status, now_ms)
            &&& post.phase is Finished
            &&& action matches StopAction::Done(Ok(()))
        },
        _ => after == before && post == pre && action is Ignore,
    }
}

impl StopFlow {
    pub fn begin(state: &mut ManagerState, now_ms: i64) -> (r: (StopFlow, StopAction))
        ensures
            stop_begun(*old(state), r.0, *final(state), r.1, now_ms),
    {
        let mut taken: Option<Active> = None;
        core::mem::swap(&mut state.ctrl.current, &mut taken);
        match taken {
            None => (
                StopFlow { phase: StopPhase::Finished },
                StopAction::Done(Err(Error::NotStarted)),
            ),
            Some(active) => {
                let epoch = active.revision.epoch;
                state.status.state = CoreState::Stopping { epoch };
                state.status.changed_at = now_ms;
                (
                    StopFlow { phase: StopPhase::Stopping { epoch } },
                    StopAction::StopInstance { epoch },
                )
            },
        }
    }

    pub fn step(&mut self, state: &mut ManagerState, event: StopEvent, now_ms: i64) -> (r:
        StopAction)
        ensures
            stop_step(*old(self), *old(state), event, *final(self), *final(state), r, now_ms),
    {
        match (self.phase, event) {
            (StopPhase::Stopping { epoch }, StopEvent::Stopped(Err(e))) => {
                state.latch_quarantine(epoch, &e, now_ms);
                self.phase = StopPhase::Finished;
                StopAction::Done(Err(e))
            },
            (StopPhase::Stopping { epoch }, StopEvent::Stopped(Ok(()))) => {
                self.phase = StopPhase::Cleaning { epoch };
                StopAction::Cleanup { epoch }
            },
            (StopPhase::Cleaning { .. }, StopEvent::Cleaned(Err(e))) => {
                self.phase = StopPhase::Finished;
                StopAction::Done(Err(e))
            },
            (StopPhase::Cleaning { .. }, StopEvent::Cleaned(Ok(()))) => {
                state.publish(
                    CoreState::Stopped { reason: Some(StopReason::User) },
                    None,
                    None,
                    None,
                    None,
                    now_ms,
                );
                self.phase = StopPhase::Finished;
                StopAction::Done(Ok(()))
            },
            _ => StopAction::Ignore,
        }
    }
}

/// What the shutdown of a manager comes to: one that runs nothing is shut down
/// already.
pub fn shutdown_result(stopped: Result<(), Error>) -> (r: Result<(), Error>)
    ensures
        match stopped {
            Err(Error::NotStarted) => r is Ok,
            _ => r == stopped,
        },
{
    match stopped {
        Err(Error::NotStarted) => Ok(()),
        other => other,
    }
}

/// A stop that is not confirmed quarantines the epoch: the manager runs nothing
/// and refuses to run anything. The artifacts of the epoch are kept.
pub proof fn law_unconfirmed_stop_quarantines(
    pre: StopFlow,
    before: ManagerState,
    e: Error,
    post: StopFlow,
    after: ManagerState,
    action: StopAction,
    epoch: u64,
    now_ms: i64,
)
    requires
        stop_step(pre, before, StopEvent::Stopped(Err(e)), post, after, action, now_ms),
        pre.phase == (StopPhase::Stopping { epoch }),
        ctrl::one_each(ctrl::quarantined(before.ctrl.quarantine@)),
    ensures
        after.ctrl.quarantine@.len() > 0,
        ctrl::entry_of(ctrl::quarantined(after.ctrl.quarantine@), epoch) < ctrl::quarantined(
            after.ctrl.quarantine@,
        ).len(),
        !(action is Cleanup),
        action == StopAction::Done(Err(e)),
{
    ctrl::law_one_entry_per_epoch(
        ctrl::quarantined(before.ctrl.quarantine@),
        epoch,
        error::error_text(e),
    );
    assert(ctrl::quarantined(after.ctrl.quarantine@).len() == after.ctrl.quarantine@.len());
}

} // verus!
