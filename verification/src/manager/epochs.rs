//! The numbers of the epochs: none is begun twice.

use vstd::prelude::*;

use crate::error;
use crate::error::Error;
use crate::manager::apply;
use crate::manager::apply::{ApplyAction, ApplyEvent, ApplyFlow};
use crate::manager::compensate;
use crate::manager::compensate::{
    CompensateAction, CompensateEvent, CompensateFlow, CompensatePhase,
};
use crate::manager::ctrl;
use crate::manager::ctrl::{Active, ManagerState};
use crate::manager::launch::LaunchEnd;
use crate::manager::recover;
use crate::manager::recover::{RecoverAction, RecoverEvent, RecoverFlow};
use crate::manager::start;
use crate::manager::start::{StartAction, StartEvent, StartFlow, StartPhase};
use crate::manager::stop;
use crate::manager::stop::{StopAction, StopEvent, StopFlow, StopPhase};
use crate::manager::switch;
use crate::manager::switch::{GracefulAction, GracefulEvent, GracefulFlow, GracefulPhase};

verus! {

/// The epoch was begun.
pub open spec fn begun(state: ManagerState, epoch: u64) -> bool {
    epoch <= state.epoch
}

/// The epochs in quarantine were all begun.
pub open spec fn all_begun(q: Seq<ctrl::Quarantined>, last: u64) -> bool {
    forall|i: int| 0 <= i < q.len() ==> (#[trigger] q[i]).epoch <= last
}

/// The epoch that runs and those in quarantine were all begun.
pub open spec fn counted(state: ManagerState) -> bool {
    &&& state.ctrl.current matches Some(active) ==> begun(state, active.revision.epoch)
    &&& all_begun(ctrl::quarantined(state.ctrl.quarantine@), state.epoch)
}

/// The epochs that a start is about were begun.
pub open spec fn start_counted(flow: StartFlow, state: ManagerState) -> bool {
    match flow.phase {
        StartPhase::StoppingStale { epoch } => begun(state, epoch),
        StartPhase::CleaningStale { epoch } => begun(state, epoch),
        StartPhase::Resolving { epoch } => begun(state, epoch),
        StartPhase::Installing { epoch, .. } => begun(state, epoch),
        StartPhase::Checking { active } => begun(state, active.revision.epoch),
        StartPhase::Launching { active } => begun(state, active.revision.epoch),
        _ => true,
    }
}

/// The epoch that a stop is about was begun.
pub open spec fn stop_counted(flow: StopFlow, state: ManagerState) -> bool {
    match flow.phase {
        StopPhase::Stopping { epoch } => begun(state, epoch),
        StopPhase::Cleaning { epoch } => begun(state, epoch),
        _ => true,
    }
}

/// The epoch that a switch brings up.
pub open spec fn brought_up(phase: GracefulPhase) -> Option<Active> {
    match phase {
        GracefulPhase::Launching { active, .. } => Some(active),
        GracefulPhase::StoppingOld { active, .. } => Some(active),
        GracefulPhase::Replacing { active } => Some(active),
        GracefulPhase::Reconciling { active } => Some(active),
        GracefulPhase::StoppingBootstrap { active } => Some(active),
        GracefulPhase::Relaunching { active } => Some(active),
        _ => None,
    }
}

/// The epochs that a switch is about were begun.
pub open spec fn switch_counted(flow: GracefulFlow, state: ManagerState) -> bool {
    flow.phase is Finished || {
        &&& begun(state, flow.epoch)
        &&& begun(state, flow.old_epoch)
        &&& brought_up(flow.phase) matches Some(active) ==> active.revision.epoch == flow.epoch
    }
}

/// The epochs that a restart is about were begun.
pub open spec fn restart_counted(flow: CompensateFlow, state: ManagerState) -> bool {
    match flow.phase {
        CompensatePhase::StoppingOld { old_active } => begun(state, old_active.revision.epoch),
        CompensatePhase::Launching { old_active, desired } => begun(
            state,
            old_active.revision.epoch,
        ) && begun(state, desired.revision.epoch),
        CompensatePhase::Restoring { old_active, .. } => begun(state, old_active.revision.epoch),
        CompensatePhase::Relaunching { old_active, .. } => begun(state, old_active.revision.epoch),
        _ => true,
    }
}

/// The epoch that a configuration is applied to was begun.
pub open spec fn apply_counted(flow: ApplyFlow, state: ManagerState) -> bool {
    flow.previous matches Some(active) ==> begun(state, active.revision.epoch)
}

proof fn lemma_recorded(q: Seq<ctrl::Quarantined>, epoch: u64, reason: Seq<char>, last: u64)
    requires
        all_begun(q, last),
        epoch <= last,
    ensures
        all_begun(ctrl::recorded(q, epoch, reason), last),
{
    ctrl::lemma_entry_bounds(q, epoch);
}

proof fn lemma_latched(
    pre: ManagerState,
    epoch: u64,
    reason: Seq<char>,
    post: ManagerState,
    now_ms: i64,
)
    requires
        counted(pre),
        begun(pre, epoch),
        ctrl::latched(pre, epoch, reason, post, now_ms),
    ensures
        counted(post),
{
    lemma_recorded(ctrl::quarantined(pre.ctrl.quarantine@), epoch, reason, pre.epoch);
}

proof fn lemma_with_proof(q: Seq<ctrl::Quarantined>, epoch: u64, last: u64)
    requires
        all_begun(q, last),
    ensures
        all_begun(recover::with_proof(q, epoch), last),
{
    ctrl::lemma_entry_bounds(q, epoch);
}

proof fn lemma_without(q: Seq<ctrl::Quarantined>, epoch: u64, last: u64)
    requires
        all_begun(q, last),
    ensures
        all_begun(recover::without(q, epoch), last),
    decreases q.len(),
{
    if q.len() > 0 {
        assert forall|i: int| 0 <= i < q.drop_last().len() implies (#[trigger] q.drop_last()[i]).epoch
            <= last by {
            assert(q.drop_last()[i] == q[i]);
        }
        lemma_without(q.drop_last(), epoch, last);
        assert(q.last() == q[q.len() - 1]);
    }
}

/// A new epoch is later than the one that runs and than all those in quarantine.
pub proof fn law_new_epochs_are_later(pre: ManagerState, post: ManagerState, epoch: u64)
    requires
        counted(pre),
        start::next_epoch(pre, post, epoch),
    ensures
        counted(post),
        forall|e: u64| #[trigger] begun(pre, e) ==> e < epoch,
        pre.ctrl.current matches Some(active) ==> active.revision.epoch < epoch,
        forall|i: int|
            0 <= i < pre.ctrl.quarantine@.len() ==> (#[trigger] ctrl::quarantined(
                pre.ctrl.quarantine@,
            )[i]).epoch < epoch,
{
}

/// A manager begins with nothing that it has not counted.
pub proof fn law_managers_begin_counted(state: ManagerState)
    requires
        state.ctrl.current is None,
        state.ctrl.quarantine@.len() == 0,
    ensures
        counted(state),
{
}

/// A start keeps count of the epochs, and the count never goes back.
pub proof fn law_starts_are_counted(
    pre: StartFlow,
    before: ManagerState,
    terminal: bool,
    event: StartEvent,
    post: StartFlow,
    after: ManagerState,
    action: StartAction,
    now_ms: i64,
)
    requires
        counted(before),
        start::start_begun(before, terminal, post, after, action) || (start_counted(pre, before)
            && start::start_step(pre, before, event, post, after, action, now_ms)),
    ensures
        counted(after),
        start_counted(post, after),
        before.epoch <= after.epoch,
{
    if !start::start_begun(before, terminal, post, after, action) {
        match (pre.phase, event) {
            (StartPhase::StoppingStale { epoch }, StartEvent::Stopped(Err(e))) => {
                lemma_latched(before, epoch, error::error_text(e), after, now_ms);
            },
            (
                StartPhase::Launching { active },
                StartEvent::Launched(LaunchEnd::Unstopped(e)),
            ) => {
                lemma_latched(
                    before,
                    active.revision.epoch,
                    error::error_text(e),
                    after,
                    now_ms,
                );
            },
            _ => {},
        }
    }
}

/// A stop keeps count of the epochs, and begins none.
pub proof fn law_stops_are_counted(
    pre: StopFlow,
    before: ManagerState,
    event: StopEvent,
    post: StopFlow,
    after: ManagerState,
    action: StopAction,
    now_ms: i64,
)
    requires
        counted(before),
        stop::stop_begun(before, post, after, action, now_ms) || (stop_counted(pre, before)
            && stop::stop_step(pre, before, event, post, after, action, now_ms)),
    ensures
        counted(after),
        stop_counted(post, after),
        after.epoch == before.epoch,
{
    if !stop::stop_begun(before, post, after, action, now_ms) {
        if let (StopPhase::Stopping { epoch }, StopEvent::Stopped(Err(e))) = (pre.phase, event) {
            lemma_latched(before, epoch, error::error_text(e), after, now_ms);
        }
    }
}

/// A switch keeps count of the epochs from its beginning.
pub proof fn law_switches_begin_counted(
    before: ManagerState,
    terminal: bool,
    endpoint: Result<Option<&str>, Error>,
    flow: GracefulFlow,
    after: ManagerState,
    action: GracefulAction,
)
    requires
        counted(before),
        switch::graceful_begun(before, terminal, endpoint, flow, after, action),
    ensures
        counted(after),
        switch_counted(flow, after),
        before.epoch <= after.epoch,
{
}

/// A switch goes on keeping count of the epochs, and begins no other one.
pub proof fn law_switches_stay_counted(
    pre: GracefulFlow,
    before: ManagerState,
    event: GracefulEvent,
    post: GracefulFlow,
    after: ManagerState,
    action: GracefulAction,
    now_ms: i64,
)
    requires
        counted(before),
        switch_counted(pre, before),
        switch::graceful_step(pre, before, event, post, after, action, now_ms),
    ensures
        counted(after),
        switch_counted(post, after),
        after.epoch == before.epoch,
{
    let q = ctrl::quarantined(before.ctrl.quarantine@);
    assert forall|reason: Seq<char>| !(pre.phase is Finished) implies #[trigger] all_begun(
        ctrl::recorded(q, pre.epoch, reason),
        before.epoch,
    ) by {
        lemma_recorded(q, pre.epoch, reason, before.epoch);
    }
    assert forall|reason: Seq<char>| !(pre.phase is Finished) implies #[trigger] all_begun(
        ctrl::recorded(q, pre.old_epoch, reason),
        before.epoch,
    ) by {
        lemma_recorded(q, pre.old_epoch, reason, before.epoch);
    }
}

/// A restart keeps count of the epochs, and begins none.
pub proof fn law_restarts_are_counted(
    pre: CompensateFlow,
    before: ManagerState,
    event: CompensateEvent,
    post: CompensateFlow,
    after: ManagerState,
    action: CompensateAction,
    now_ms: i64,
)
    requires
        counted(before),
        compensate::compensate_begun(before, post, after, action) || (
        restart_counted(pre, before) && compensate::compensate_step(
            pre,
            before,
            event,
            post,
            after,
            action,
            now_ms,
        )),
    ensures
        counted(after),
        restart_counted(post, after),
        after.epoch == before.epoch,
{
    let q = ctrl::quarantined(before.ctrl.quarantine@);
    assert forall|epoch: u64, reason: Seq<char>| epoch <= before.epoch implies #[trigger] all_begun(
        ctrl::recorded(q, epoch, reason),
        before.epoch,
    ) by {
        lemma_recorded(q, epoch, reason, before.epoch);
    }
}

/// Applying a configuration keeps count of the epochs, and begins none itself.
pub proof fn law_applying_is_counted(
    pre: ApplyFlow,
    before: ManagerState,
    event: ApplyEvent,
    post: ApplyFlow,
    after: ManagerState,
    action: ApplyAction,
)
    requires
        counted(before),
        pre.wf(),
        apply_counted(pre, before),
        apply::apply_step(pre, before, event, post, after, action),
    ensures
        counted(after),
        after.epoch == before.epoch,
        action is Compensate || apply_counted(post, after),
{
}

/// Recovery keeps count of the epochs, and begins none.
pub proof fn law_recovery_is_counted(
    pre: RecoverFlow,
    before: ManagerState,
    event: RecoverEvent,
    post: RecoverFlow,
    after: ManagerState,
    action: RecoverAction,
    now_ms: i64,
)
    requires
        counted(before),
        recover::recover_step(pre, before, event, post, after, action, now_ms),
    ensures
        counted(after),
        after.epoch == before.epoch,
{
    let q = ctrl::quarantined(before.ctrl.quarantine@);
    let epoch = pre.epochs@[pre.at as int];
    lemma_with_proof(q, epoch, before.epoch);
    lemma_without(q, epoch, before.epoch);
}

} // verus!
