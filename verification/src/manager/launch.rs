//! Bringing up one instance: it is launched and waited for, and stopped again
//! where it does not become ready.

use std::sync::Arc;

use vstd::prelude::*;
use vstd::string::*;

use crate::error;
use crate::error::Error;
use crate::spec::{InstanceSpec, ResolvedController};
use crate::state::InstanceStatus;

verus! {

/// What is launched for what.
#[derive(Debug, Clone, Copy, PartialEq, Eq, Structural)]
pub enum LaunchRole {
    Initial,
    Replacement,
    Bootstrap,
    HardReplacement,
}

/// What is launched.
pub struct LaunchRequest {
    pub effective_spec: Arc<InstanceSpec>,
    pub epoch: u64,
    pub controller: Arc<ResolvedController>,
    pub role: LaunchRole,
}

/// What is said of an instance that neither became ready nor stopped.
pub open spec fn unstopped_words(role: LaunchRole, ready: Seq<char>, stop: Seq<char>) -> Seq<
    char,
> {
    ready + (match role {
        LaunchRole::Initial => "; failed to stop rejected initial instance: "@,
        LaunchRole::Replacement => "; failed to stop rejected replacement: "@,
        LaunchRole::Bootstrap => "; failed to stop rejected graceful bootstrap: "@,
        LaunchRole::HardReplacement => "; failed to stop rejected hard replacement: "@,
    }) + stop
}

fn unstopped(role: LaunchRole, ready: &Error, stop: &Error) -> (r: Error)
    ensures
        r matches Error::StopUnconfirmed(m) && m@ == unstopped_words(
            role,
            error::error_text(*ready),
            error::error_text(*stop),
        ),
{
    let mut words = ready.message();
    match role {
        LaunchRole::Initial => words.append("; failed to stop rejected initial instance: "),
        LaunchRole::Replacement => words.append("; failed to stop rejected replacement: "),
        LaunchRole::Bootstrap => words.append("; failed to stop rejected graceful bootstrap: "),
        LaunchRole::HardReplacement => words.append("; failed to stop rejected hard replacement: "),
    }
    words.append(stop.message().as_str());
    Error::StopUnconfirmed(words)
}

/// How bringing up an instance ended.
#[derive(Debug)]
pub enum LaunchEnd {
    /// It runs and is ready.
    Ready(InstanceStatus),
    /// It was not launched.
    Refused(Error),
    /// It did not become ready and is surely dead.
    Rejected(Error),
    /// It did not become ready and may still run.
    Unstopped(Error),
}

#[derive(Debug)]
pub enum LaunchPhase {
    Launching,
    Waiting,
    Stopping { error: Error },
    Finished,
}

#[derive(Debug)]
pub enum LaunchEvent {
    Launched(Result<(), Error>),
    Ready(Result<InstanceStatus, Error>),
    Stopped(Result<(), Error>),
}

#[derive(Debug)]
pub enum LaunchAction {
    Launch,
    WaitReady,
    Stop,
    Done(LaunchEnd),
    /// The event does not belong here.
    Ignore,
}

#[derive(Debug)]
pub struct LaunchFlow {
    pub role: LaunchRole,
    pub phase: LaunchPhase,
}

/// How bringing up an instance goes on.
pub open spec fn launch_step(
    pre: LaunchFlow,
    event: LaunchEvent,
    post: LaunchFlow,
    action: LaunchAction,
) -> bool {
    &&& post.role == pre.role
    &&& match (pre.phase, event) {
        (LaunchPhase::Launching, LaunchEvent::Launched(Ok(()))) => post.phase is Waiting
            && action is WaitReady,
        (LaunchPhase::Launching, LaunchEvent::Launched(Err(e))) => post.phase is Finished && action
            == LaunchAction::Done(LaunchEnd::Refused(e)),
        (LaunchPhase::Waiting, LaunchEvent::Ready(Ok(status))) => post.phase is Finished && action
            == LaunchAction::Done(LaunchEnd::Ready(status)),
        (LaunchPhase::Waiting, LaunchEvent::Ready(Err(e))) => post.phase == (
        LaunchPhase::Stopping { error: e }) && action is Stop,
        (LaunchPhase::Stopping { error }, LaunchEvent::Stopped(Ok(()))) => post.phase is Finished
            && action == LaunchAction::Done(LaunchEnd::Rejected(error)),
        (LaunchPhase::Stopping { error }, LaunchEvent::Stopped(Err(stop))) =>
        post.phase is Finished && (action matches LaunchAction::Done(
            LaunchEnd::Unstopped(Error::StopUnconfirmed(m)),
        ) && m@ == unstopped_words(pre.role, error::error_text(error), error::error_text(stop))),
        _ => post.phase == pre.phase && action is Ignore,
    }
}

impl LaunchFlow {
    pub fn begin(role: LaunchRole) -> (r: (LaunchFlow, LaunchAction))
        ensures
            r.0 == (LaunchFlow { role, phase: LaunchPhase::Launching }),
            r.1 is Launch,
    {
        (LaunchFlow { role, phase: LaunchPhase::Launching }, LaunchAction::Launch)
    }

    pub fn step(&mut self, event: LaunchEvent) -> (r: LaunchAction)
        ensures
            launch_step(*old(self), event, *final(self), r),
    {
        let mut phase = LaunchPhase::Finished;
        core::mem::swap(&mut self.phase, &mut phase);
        match (phase, event) {
            (LaunchPhase::Launching, LaunchEvent::Launched(Ok(()))) => {
                self.phase = LaunchPhase::Waiting;
                LaunchAction::WaitReady
            },
            (LaunchPhase::Launching, LaunchEvent::Launched(Err(e))) => LaunchAction::Done(
                LaunchEnd::Refused(e),
            ),
            (LaunchPhase::Waiting, LaunchEvent::Ready(Ok(status))) => LaunchAction::Done(
                LaunchEnd::Ready(status),
            ),
            (LaunchPhase::Waiting, LaunchEvent::Ready(Err(error))) => {
                self.phase = LaunchPhase::Stopping { error };
                LaunchAction::Stop
            },
            (LaunchPhase::Stopping { error }, LaunchEvent::Stopped(Ok(()))) => LaunchAction::Done(
                LaunchEnd::Rejected(error),
            ),
            (LaunchPhase::Stopping { error }, LaunchEvent::Stopped(Err(stop))) => {
                let e = unstopped(self.role, &error, &stop);
                LaunchAction::Done(LaunchEnd::Unstopped(e))
            },
            (phase, _) => {
                self.phase = phase;
                LaunchAction::Ignore
            },
        }
    }
}

/// An instance that did not become ready is given up only once it was stopped, and
/// is called dead only where that succeeded.
pub proof fn law_rejected_instances_are_stopped(
    pre: LaunchFlow,
    event: LaunchEvent,
    post: LaunchFlow,
    action: LaunchAction,
)
    requires
        launch_step(pre, event, post, action),
    ensures
        action matches LaunchAction::Done(LaunchEnd::Rejected(e)) ==> (event
            matches LaunchEvent::Stopped(Ok(()))) && pre.phase == (LaunchPhase::Stopping {
            error: e,
        }),
        action matches LaunchAction::Done(LaunchEnd::Unstopped(e)) ==> e is StopUnconfirmed,
{
}

} // verus!
