//! What holds of the flows of the manager, step by step.

use vstd::prelude::*;

use crate::config::mihomo;
use crate::config::mihomo::{ConfigChange, OverlapBlock};
use crate::config::snapshot;
use crate::config::snapshot::{ConfigSnapshot, PreparedConfig};
use crate::error;
use crate::error::Error;
use crate::manager::apply;
use crate::manager::apply::ApplyOutcome;
use crate::manager::compensate;
use crate::manager::compensate::{
    CompensateAction, CompensateEvent, CompensateFlow, CompensatePhase,
};
use crate::manager::ctrl;
use crate::manager::ctrl::{Active, Ctrl, ManagerState};
use crate::manager::launch;
use crate::manager::launch::{
    LaunchAction, LaunchEnd, LaunchEvent, LaunchFlow, LaunchPhase,
};
use crate::manager::options;
use crate::manager::options::{SweepAction, SweepEvent, SweepFlow};
use crate::manager::reconcile;
use crate::manager::reconcile::{
    InPlaceAction, InPlaceEvent, InPlaceFlow, InPlaceKind, InPlacePhase,
};
use crate::manager::recover;
use crate::manager::recover::{RecoverAction, RecoverEvent, RecoverFlow};
use crate::manager::route;
use crate::manager::route::{
    ReconcileRoute, SwitchAction, SwitchEvent, SwitchFlow, SwitchPhase,
};
use crate::manager::start;
use crate::manager::start::{StartAction, StartEvent, StartFlow, StartPhase};
use crate::manager::stop;
use crate::manager::stop::{StopAction, StopEvent, StopFlow, StopPhase};
use crate::manager::switch;
use crate::manager::switch::{
    DegradeReason, GracefulAction, GracefulConfigs, GracefulEvent, GracefulFlow, GracefulPhase,
    SwitchOutcome,
};
use crate::platform::Platform;
use crate::spec::ManagerOptions;
use crate::state;
use crate::state::{
    CoreState, CoreStatus, InstanceState, InstanceStatus, RevisionId, StopReason,
};
use crate::value;
use crate::value::Node;

verus! {

/// The manager tells of this epoch: of its specification, its controller and its
/// revision.
pub open spec fn speaks_of(status: CoreStatus, active: Active) -> bool {
    &&& status.revision == Some(active.revision)
    &&& status.controller == Some(active.controller.host)
    &&& status.spec matches Some(s) && s.kind == active.source_spec.core.kind && s.config_path
        == active.source_spec.config_path && s.capabilities == active.capabilities
        && s.runtime_features == active.runtime_features
}

/// The manager runs this epoch under this pid, and says so.
pub open spec fn runs(state: ManagerState, active: Active, status: InstanceStatus) -> bool {
    &&& state.ctrl.current == Some(active)
    &&& state.ctrl.last_spec == Some(active.source_spec)
    &&& speaks_of(state.status, active)
    &&& state.status.health == status.health
    &&& status.state matches InstanceState::Running { pid } ==> state.status.state == (
    CoreState::Running { epoch: active.revision.epoch, pid })
    &&& state.status.state is Running
}

/// The manager runs nothing, and says that it stopped for this error.
pub open spec fn gave_up(state: ManagerState, words: Seq<char>) -> bool {
    &&& state.status.state matches CoreState::Stopped { reason: Some(StopReason::Error(m)) } && m@
        == words
    &&& state.status.revision is None && state.status.controller is None && state.status.spec
        is None && state.status.health is None
}

/// The epoch is among those in quarantine, for this reason.
pub open spec fn is_quarantined(state: ManagerState, epoch: u64, reason: Seq<char>) -> bool {
    exists|i: int|
        0 <= i < state.ctrl.quarantine@.len() && (#[trigger] state.ctrl.quarantine@[i]).epoch
            == epoch && state.ctrl.quarantine@[i].reason@ == reason
}

proof fn lemma_quarantined(
    pre: ManagerState,
    epoch: u64,
    reason: Seq<char>,
    post: ManagerState,
    now_ms: i64,
)
    requires
        ctrl::latched(pre, epoch, reason, post, now_ms),
    ensures
        is_quarantined(post, epoch, reason),
        post.ctrl.quarantine@.len() > 0,
        post.status.state matches CoreState::Stopped { reason: Some(StopReason::Error(_)) },
        post.status.revision is None && post.status.controller is None && post.status.spec is None
            && post.status.health is None,
{
    let q = ctrl::quarantined(pre.ctrl.quarantine@);
    let after = ctrl::quarantined(post.ctrl.quarantine@);
    ctrl::lemma_entry_bounds(q, epoch);
    let i = ctrl::entry_of(q, epoch);
    assert(after[i].epoch == epoch && after[i].reason == reason);
    assert(after[i] == post.ctrl.quarantine@[i]@);
}

// ---------------------------------------------------------------------------
// The status
// ---------------------------------------------------------------------------

/// News of the epoch that the manager tells of are told as they are: the state of the
/// process under its epoch, and its health. All else stays, and the time moves exactly
/// when the state changes.
pub proof fn law_news_are_told(
    pre: CoreStatus,
    epoch: u64,
    instance: InstanceStatus,
    post: CoreStatus,
    now_ms: i64,
)
    requires
        ctrl::forwarded(pre, epoch, instance, post, now_ms),
        pre.revision matches Some(r) && r.epoch == epoch,
        pre.state != ctrl::mapped_state(epoch, instance.state) && !(pre.state is Stopped),
    ensures
        post.health == instance.health,
        post.revision == pre.revision && post.spec == pre.spec && post.controller
            == pre.controller,
        post.changed_at == now_ms,
        instance.state is Starting ==> post.state == (CoreState::Starting { epoch }),
        instance.state matches InstanceState::Running { pid } ==> post.state == (
        CoreState::Running { epoch, pid }),
        instance.state matches InstanceState::Restarting { attempt } ==> post.state == (
        CoreState::Restarting { epoch, attempt }),
        instance.state is Stopping ==> post.state == (CoreState::Stopping { epoch }),
        instance.state matches InstanceState::Stopped(reason) ==> post.state == (
        CoreState::Stopped { reason: Some(reason) }),
{
}

/// News in which only the health is new are told without touching the time of the last
/// change; news in which nothing is new are not told.
pub proof fn law_health_is_told_without_a_change(
    pre: CoreStatus,
    epoch: u64,
    instance: InstanceStatus,
    post: CoreStatus,
    now_ms: i64,
)
    requires
        ctrl::forwarded(pre, epoch, instance, post, now_ms),
        pre.revision matches Some(r) && r.epoch == epoch,
        pre.state == ctrl::mapped_state(epoch, instance.state),
    ensures
        post.changed_at == pre.changed_at,
        post.state == pre.state,
        instance.health is Some && pre.health is Some && instance.health->0.state
            != pre.health->0.state ==> post.health == instance.health,
        instance.health is None != pre.health is None ==> post.health == instance.health,
        instance.health == pre.health ==> post == pre,
{
}

/// An epoch that is put in quarantine is there afterwards with its reason, next to all
/// that were there, and the manager says that it stopped.
pub proof fn law_quarantine_holds_the_epoch(
    pre: ManagerState,
    epoch: u64,
    reason: Seq<char>,
    post: ManagerState,
    now_ms: i64,
)
    requires
        ctrl::latched(pre, epoch, reason, post, now_ms),
    ensures
        is_quarantined(post, epoch, reason),
        forall|i: int|
            0 <= i < pre.ctrl.quarantine@.len() ==> exists|j: int|
                0 <= j < post.ctrl.quarantine@.len() && (#[trigger] post.ctrl.quarantine@[j]).epoch
                    == (#[trigger] pre.ctrl.quarantine@[i]).epoch,
        post.ctrl.current == pre.ctrl.current,
        post.ctrl.last_spec == pre.ctrl.last_spec,
        post.epoch == pre.epoch,
        post.status.state matches CoreState::Stopped { reason: Some(StopReason::Error(_)) },
        post.status.revision is None,
{
    lemma_quarantined(pre, epoch, reason, post, now_ms);
    let q = ctrl::quarantined(pre.ctrl.quarantine@);
    let after = ctrl::quarantined(post.ctrl.quarantine@);
    ctrl::lemma_entry_bounds(q, epoch);
    assert forall|i: int| 0 <= i < pre.ctrl.quarantine@.len() implies exists|j: int|
        0 <= j < post.ctrl.quarantine@.len() && (#[trigger] post.ctrl.quarantine@[j]).epoch == (
        #[trigger] pre.ctrl.quarantine@[i]).epoch by {
        assert(q[i] == pre.ctrl.quarantine@[i]@);
        assert(after[i] == post.ctrl.quarantine@[i]@);
        assert(after[i].epoch == q[i].epoch);
    }
}

// ---------------------------------------------------------------------------
// Bringing up one instance
// ---------------------------------------------------------------------------

/// An instance is waited for once it was launched. It is taken as it says it is once it
/// is ready; one that was not launched is refused, one that did not become ready is
/// stopped, and then rejected with the error for which it was.
pub proof fn law_instances_are_waited_for(
    pre: LaunchFlow,
    event: LaunchEvent,
    post: LaunchFlow,
    action: LaunchAction,
)
    requires
        launch::launch_step(pre, event, post, action),
    ensures
        pre.phase is Launching && (event matches LaunchEvent::Launched(Ok(()))) ==> action is WaitReady
            && post.phase is Waiting,
        pre.phase is Launching ==> (event matches LaunchEvent::Launched(Err(e)) ==> action
            == LaunchAction::Done(LaunchEnd::Refused(e))),
        pre.phase is Waiting ==> (event matches LaunchEvent::Ready(Ok(status)) ==> action
            == LaunchAction::Done(LaunchEnd::Ready(status))),
        pre.phase is Waiting ==> (event matches LaunchEvent::Ready(Err(e)) ==> action is Stop
            && post.phase == (LaunchPhase::Stopping { error: e })),
        pre.phase matches LaunchPhase::Stopping { error } ==> ((event matches LaunchEvent::Stopped(Ok(()))) ==> action == LaunchAction::Done(
            LaunchEnd::Rejected(error),
        )),
        pre.phase is Stopping ==> (event matches LaunchEvent::Stopped(Err(_)) ==> (action
            matches LaunchAction::Done(LaunchEnd::Unstopped(_)))),
        action matches LaunchAction::Done(LaunchEnd::Ready(status)) ==> event
            == LaunchEvent::Ready(Ok(status)),
        action is Done ==> post.phase is Finished,
        pre.phase is Finished ==> action is Ignore && post == pre,
        post.role == pre.role,
{
}

// ---------------------------------------------------------------------------
// Starting
// ---------------------------------------------------------------------------

/// A start goes on with the next epoch where nothing runs. What runs is left alone; an
/// instance that has ended is stopped and cleaned up first.
pub proof fn law_a_start_takes_the_next_epoch(
    pre: ManagerState,
    terminal: bool,
    flow: StartFlow,
    post: ManagerState,
    action: StartAction,
)
    requires
        start::start_begun(pre, terminal, flow, post, action),
        pre.ctrl.quarantine@.len() == 0,
    ensures
        pre.ctrl.current is None ==> post.epoch == pre.epoch + 1 && action == (
        StartAction::Resolve { epoch: post.epoch }) && post.ctrl == pre.ctrl && post.status
            == pre.status,
        pre.ctrl.current is Some && !terminal ==> post == pre && (action
            matches StartAction::Done(Err(e)) && e is AlreadyRunning),
        pre.ctrl.current matches Some(active) ==> (terminal ==> post.ctrl.current is None
            && post.epoch == pre.epoch && action == (StartAction::StopStale {
            epoch: active.revision.epoch,
        })),
{
}

/// A start installs what was prepared of its configuration, has it checked, and only
/// then launches it, each under the epoch that it began.
pub proof fn law_a_start_runs_what_it_prepared(
    pre: StartFlow,
    before: ManagerState,
    event: StartEvent,
    post: StartFlow,
    after: ManagerState,
    action: StartAction,
    now_ms: i64,
)
    requires
        start::start_step(pre, before, event, post, after, action, now_ms),
    ensures
        action matches StartAction::Install { epoch, bytes } ==> (pre.phase
            == (StartPhase::Resolving { epoch }) && (event matches StartEvent::Resolved(
            Ok((features, endpoint)),
        ) && (post.phase matches StartPhase::Installing { epoch: e, features: f, prepared } && e
            == epoch && f == features && prepared.bytes@ == bytes@ && start::prepares(
            *pre.request.snapshot,
            pre.request.platform,
            endpoint,
            Ok(prepared),
        )))),
        action matches StartAction::Check { spec } ==> (pre.phase matches StartPhase::Installing {
            epoch,
            features,
            prepared,
        } && (event matches StartEvent::Installed(Ok(path)) && (post.phase
            matches StartPhase::Checking { active } && {
            &&& spec == active.effective_spec
            &&& active.revision.epoch == epoch
            &&& active.revision.generation == 1
            &&& active.revision.source_hash == prepared.source_hash
            &&& active.revision.effective_hash == prepared.effective_hash
            &&& active.revision.runtime_path@ == path@
            &&& active.effective_document == prepared.document
            &&& value::entries(active.source_document@) == pre.request.snapshot.table()
            &&& active.controller == prepared.controller
            &&& active.capabilities == features.capabilities
            &&& active.runtime_features == features.runtime
            &&& active.source_spec == pre.request.spec
            &&& spec.config_path@ == path@
            &&& spec.core.kind == pre.request.spec.core.kind
            &&& spec.core.binary_path == pre.request.spec.core.binary_path
            &&& spec.core.features == pre.request.spec.core.features
            &&& pre.request.spec.core.version is Some ==> spec.core.version
                == pre.request.spec.core.version
            &&& pre.request.spec.core.version is None ==> spec.core.version == features.version
            &&& spec.working_dir == pre.request.spec.working_dir
            &&& spec.options == pre.request.spec.options
            &&& spec.pid_file is Some
        }))),
        action matches StartAction::Launch(request) ==> (pre.phase
            matches StartPhase::Checking { active } && (event matches StartEvent::Checked(Ok(())))
            && post.phase == (StartPhase::Launching { active }) && request.effective_spec
            == active.effective_spec && request.epoch == active.revision.epoch
            && request.controller == active.controller && request.role is Initial
            && after.status.state == (CoreState::Starting { epoch: active.revision.epoch })
            && speaks_of(after.status, active) && after.ctrl == before.ctrl),
        pre.phase is Checking && (event matches StartEvent::Checked(Ok(()))) ==> action is Launch,
        pre.phase is Installing ==> (event matches StartEvent::Installed(Ok(_)) ==> action
            is Check),
{
}

/// A core that became ready runs, under its epoch and its pid, and the start is done.
/// One that did not leaves nothing: its files are removed, and the manager says why it
/// stopped, in the words of the error that it answers; where the process may still run
/// its epoch is in quarantine instead.
pub proof fn law_a_start_ends_as_its_core_does(
    pre: StartFlow,
    before: ManagerState,
    event: StartEvent,
    post: StartFlow,
    after: ManagerState,
    action: StartAction,
    now_ms: i64,
)
    requires
        start::start_step(pre, before, event, post, after, action, now_ms),
    ensures
        pre.phase matches StartPhase::Launching { active } ==> {
            &&& event matches StartEvent::Launched(LaunchEnd::Ready(status)) ==> runs(
                after,
                active,
                status,
            ) && (action matches StartAction::Done(Ok(()))) && after.ctrl.quarantine
                == before.ctrl.quarantine
            &&& event matches StartEvent::Launched(LaunchEnd::Refused(e)) ==> after == before
                && action == (StartAction::Cleanup { epoch: active.revision.epoch })
                && post.phase == (StartPhase::Failing {
                epoch: active.revision.epoch,
                error: e,
            })
            &&& event matches StartEvent::Launched(LaunchEnd::Rejected(e)) ==> after == before
                && action == (StartAction::Cleanup { epoch: active.revision.epoch })
                && post.phase == (StartPhase::Failing {
                epoch: active.revision.epoch,
                error: e,
            })
            &&& event matches StartEvent::Launched(LaunchEnd::Unstopped(e)) ==> is_quarantined(
                after,
                active.revision.epoch,
                error::error_text(e),
            ) && action == StartAction::Done(Err(e))
        },
        pre.phase matches StartPhase::Checking { active } ==> (event matches StartEvent::Checked(
            Err(e),
        ) ==> action == (StartAction::Cleanup { epoch: active.revision.epoch }) && post.phase == (
        StartPhase::Failing { epoch: active.revision.epoch, error: e })),
        pre.phase matches StartPhase::Failing { error, .. } ==> (event is Cleaned ==> action
            == StartAction::Done(Err(error)) && gave_up(after, error::error_text(error))
            && after.ctrl == before.ctrl),
        pre.phase is Installing ==> (event matches StartEvent::Installed(Err(e)) ==> action
            == StartAction::Done(Err(e)) && after == before),
        pre.phase is Resolving ==> (event matches StartEvent::Resolved(Err(e)) ==> action
            == StartAction::Done(Err(e)) && after == before),
{
    match (pre.phase, event) {
        (
            StartPhase::Launching { active },
            StartEvent::Launched(LaunchEnd::Unstopped(e)),
        ) => {
            lemma_quarantined(before, active.revision.epoch, error::error_text(e), after, now_ms);
        },
        _ => {},
    }
}

/// An instance that has ended is out of the way before anything is started: its process
/// is surely dead and its files are gone, and only then is the next epoch begun.
pub proof fn law_stale_cores_go_first(
    pre: StartFlow,
    before: ManagerState,
    event: StartEvent,
    post: StartFlow,
    after: ManagerState,
    action: StartAction,
    now_ms: i64,
)
    requires
        start::start_step(pre, before, event, post, after, action, now_ms),
    ensures
        pre.phase matches StartPhase::StoppingStale { epoch } ==> {
            &&& (event matches StartEvent::Stopped(Ok(()))) ==> action == (StartAction::Cleanup { epoch })
                && post.phase == (StartPhase::CleaningStale { epoch }) && after == before
            &&& event matches StartEvent::Stopped(Err(e)) ==> action == StartAction::Done(Err(e))
                && is_quarantined(after, epoch, error::error_text(e))
        },
        pre.phase is CleaningStale ==> {
            &&& (event matches StartEvent::Cleaned(Ok(()))) ==> after.epoch == before.epoch + 1 && action
                == (StartAction::Resolve { epoch: after.epoch }) && post.phase == (
            StartPhase::Resolving { epoch: after.epoch })
            &&& event matches StartEvent::Cleaned(Err(e)) ==> action == StartAction::Done(Err(e))
                && after == before
        },
{
    match (pre.phase, event) {
        (StartPhase::StoppingStale { epoch }, StartEvent::Stopped(Err(e))) => {
            lemma_quarantined(before, epoch, error::error_text(e), after, now_ms);
        },
        _ => {},
    }
}

// ---------------------------------------------------------------------------
// Stopping
// ---------------------------------------------------------------------------

/// A stop is of the epoch that runs: it is let go and told as stopping, and its instance
/// is stopped. Where nothing runs nothing is done.
pub proof fn law_a_stop_is_of_what_runs(
    pre: ManagerState,
    flow: StopFlow,
    post: ManagerState,
    action: StopAction,
    now_ms: i64,
)
    requires
        stop::stop_begun(pre, flow, post, action, now_ms),
    ensures
        pre.ctrl.current is None ==> post == pre && (action matches StopAction::Done(Err(e)) && e
            is NotStarted),
        pre.ctrl.current matches Some(active) ==> post.ctrl.current is None && post.status.state
            == (CoreState::Stopping { epoch: active.revision.epoch }) && action == (
        StopAction::StopInstance { epoch: active.revision.epoch }) && flow.phase == (
        StopPhase::Stopping { epoch: active.revision.epoch }) && post.ctrl.last_spec
            == pre.ctrl.last_spec && post.ctrl.quarantine == pre.ctrl.quarantine,
{
}

/// A stop ends as its core does: done once it is dead and its files are gone, and with
/// the error otherwise; what may still run is in quarantine.
pub proof fn law_a_stop_ends_as_its_core_does(
    pre: StopFlow,
    before: ManagerState,
    event: StopEvent,
    post: StopFlow,
    after: ManagerState,
    action: StopAction,
    now_ms: i64,
)
    requires
        stop::stop_step(pre, before, event, post, after, action, now_ms),
    ensures
        pre.phase matches StopPhase::Stopping { epoch } ==> {
            &&& (event matches StopEvent::Stopped(Ok(()))) ==> action == (StopAction::Cleanup { epoch })
                && post.phase == (StopPhase::Cleaning { epoch }) && after == before
            &&& event matches StopEvent::Stopped(Err(e)) ==> action == StopAction::Done(Err(e))
                && is_quarantined(after, epoch, error::error_text(e))
        },
        pre.phase is Cleaning ==> {
            &&& (event matches StopEvent::Cleaned(Ok(()))) ==> (action matches StopAction::Done(Ok(())))
                && after.status.state == (CoreState::Stopped { reason: Some(StopReason::User) })
                && after.status.revision is None && after.status.controller is None
                && after.status.spec is None && after.status.health is None && after.ctrl
                == before.ctrl
            &&& event matches StopEvent::Cleaned(Err(e)) ==> action == StopAction::Done(Err(e))
                && after == before
        },
        (action matches StopAction::Done(Ok(()))) ==> pre.phase is Cleaning,
{
    match (pre.phase, event) {
        (StopPhase::Stopping { epoch }, StopEvent::Stopped(Err(e))) => {
            lemma_quarantined(before, epoch, error::error_text(e), after, now_ms);
        },
        _ => {},
    }
}

// ---------------------------------------------------------------------------
// Switching side by side
// ---------------------------------------------------------------------------

/// Two cores run side by side exactly where the new one has a local controller, is of
/// the family that can be told of changes, and takes in nothing that cannot be closed;
/// otherwise the reason says which of these is missing.
pub proof fn law_cores_overlap_where_they_can(
    local_controller: bool,
    kind: crate::metadata::kind::ClashCoreKind,
    block: Option<OverlapBlock>,
)
    ensures
        switch::degrade_reason(local_controller, kind, block) is None <==> local_controller && kind
            is Mihomo && block is None,
        switch::degrade_reason(local_controller, kind, block) == Some(DegradeReason::HttpController)
            <==> !local_controller,
        switch::degrade_reason(local_controller, kind, block) == Some(
            DegradeReason::UnsupportedKind,
        ) <==> local_controller && !(kind is Mihomo),
        switch::degrade_reason(local_controller, kind, block) == Some(DegradeReason::DnsListen)
            <==> local_controller && kind is Mihomo && block == Some(OverlapBlock::DnsListen),
        switch::degrade_reason(local_controller, kind, block) == Some(
            DegradeReason::InboundConflict,
        ) <==> local_controller && kind is Mihomo && block == Some(OverlapBlock::InboundSurface),
{
}

/// A switch goes by how things are: nothing that runs means a start, an instance that
/// has ended is stopped first, and what runs is compared with what is to run. The
/// outcome of a hard switch tells its reason.
pub proof fn law_switches_go_by_what_runs(
    ctrl: Ctrl,
    terminal: bool,
    flow: SwitchFlow,
    action: SwitchAction,
)
    requires
        route::switch_begun(ctrl, terminal, flow, action),
        ctrl.quarantine@.len() == 0,
    ensures
        ctrl.current is None <==> action is Start,
        ctrl.current is Some && terminal <==> action is Stop,
        ctrl.current is Some && !terminal <==> action is Inspect,
        action is Start ==> flow.phase == (SwitchPhase::Starting {
            reason: DegradeReason::NotRunning,
        }),
        action is Stop ==> flow.phase == (SwitchPhase::Stopping {
            reason: DegradeReason::NotRunning,
        }),
{
}

/// A hard switch stops what runs, then starts what is to run; any failure ends it.
pub proof fn law_hard_switches_stop_then_start(
    pre: SwitchFlow,
    event: SwitchEvent,
    post: SwitchFlow,
    action: SwitchAction,
)
    requires
        route::switch_step(pre, event, post, action),
    ensures
        pre.phase matches SwitchPhase::Stopping { reason } ==> {
            &&& (event matches SwitchEvent::Stopped(Ok(()))) ==> action is Start && post.phase == (
            SwitchPhase::Starting { reason })
            &&& event matches SwitchEvent::Stopped(Err(e)) ==> action == SwitchAction::Done(Err(e))
        },
        pre.phase matches SwitchPhase::Starting { reason } ==> {
            &&& (event matches SwitchEvent::Started(Ok(()))) ==> action == SwitchAction::Done(
                Ok(SwitchOutcome::Hard { reason }),
            )
            &&& event matches SwitchEvent::Started(Err(e)) ==> action == SwitchAction::Done(Err(e))
        },
        pre.phase is Inspecting ==> (event matches SwitchEvent::Inspected(Err(e)) ==> action
            == SwitchAction::Done(Err(e))),
        pre.phase is Inspecting ==> (event matches SwitchEvent::Inspected(Ok((features, snapshot)))
            ==> (action is Graceful <==> features.runtime.local_ipc && pre.spec.core.kind is Mihomo
            && mihomo::block(snapshot.table()) is None) && (!(action is Graceful) ==> action
            is Stop)),
        action matches SwitchAction::Graceful { features, snapshot } ==> event
            == SwitchEvent::Inspected(Ok((features, snapshot))),
        action is Start ==> pre.phase is Stopping,
{
}

/// A desired state is reached by applying it to what runs, and by a start where nothing
/// does, unless the caller expected something to run.
pub proof fn law_desired_states_are_routed(
    ctrl: Ctrl,
    terminal: bool,
    expected: Option<RevisionId>,
    r: Result<ReconcileRoute, Error>,
)
    requires
        route::reconcile_routed(ctrl, terminal, expected, r),
        ctrl.quarantine@.len() == 0,
    ensures
        r == Ok::<ReconcileRoute, Error>(ReconcileRoute::Apply) <==> ctrl.current is Some
            && !terminal,
        r == Ok::<ReconcileRoute, Error>(ReconcileRoute::Start) <==> !(ctrl.current is Some
            && !terminal) && expected is None,
        r matches Err(e) ==> (e matches Error::RevisionConflict { expected: x, actual: None }
            && expected == Some(x)),
{
}

/// The two configurations of a core that first runs beside another one come from the
/// same source and answer at the same controller; the first takes in nothing, and where
/// the two do not say the same it is told exactly what makes the first into the second.
pub proof fn law_bootstraps_lead_to_the_full_configuration(
    source: &ConfigSnapshot,
    platform: Platform,
    endpoint: Option<&str>,
    configs: GracefulConfigs,
)
    requires
        switch::configured(*source, platform, endpoint, Ok(configs)),
    ensures
        snapshot::prepared(
            source.table(),
            source.hash(),
            platform,
            endpoint,
            false,
            Ok(configs.full),
        ),
        snapshot::prepared(
            source.table(),
            source.hash(),
            platform,
            endpoint,
            true,
            Ok(configs.bootstrap),
        ),
        configs.full.controller.host@ == configs.bootstrap.controller.host@,
        configs.restoration is None ==> value::alike(
            Node::Table(value::entries(configs.bootstrap.document@)),
            Node::Table(value::entries(configs.full.document@)),
        ),
        configs.restoration matches Some(document) ==> mihomo::documents_outcome(
            value::entries(configs.bootstrap.document@),
            value::entries(configs.full.document@),
            Ok(ConfigChange::Patch { document }),
        ),
{
    let full = choose|full: Result<PreparedConfig, Error>|
        #[trigger] snapshot::prepared(
            source.table(),
            source.hash(),
            platform,
            endpoint,
            false,
            full,
        ) && (match full {
            Err(e) => Ok::<GracefulConfigs, Error>(configs) == Err::<GracefulConfigs, Error>(e),
            Ok(full) => switch::configured_beside(*source, platform, endpoint, full, Ok(configs)),
        });
    let bootstrap = choose|bootstrap: Result<PreparedConfig, Error>|
        #[trigger] snapshot::prepared(
            source.table(),
            source.hash(),
            platform,
            endpoint,
            true,
            bootstrap,
        ) && (match bootstrap {
            Err(e) => Ok::<GracefulConfigs, Error>(configs) == Err::<GracefulConfigs, Error>(e),
            Ok(bootstrap) => switch::paired(full->Ok_0, bootstrap, Ok(configs)),
        });
    let change = choose|change: Result<ConfigChange, Error>|
        #[trigger] mihomo::restoration_outcome(
            value::entries(bootstrap->Ok_0.document@),
            value::entries(full->Ok_0.document@),
            change,
            switch::restoration_of(Ok(configs)),
        ) && configs.full == full->Ok_0 && configs.bootstrap == bootstrap->Ok_0;
    mihomo::law_noop_means_unchanged(
        value::entries(configs.bootstrap.document@),
        value::entries(configs.full.document@),
        change,
    );
}

/// A switch begins the next epoch beside the one that runs.
pub proof fn law_a_switch_begins_beside_what_runs(
    pre: ManagerState,
    terminal: bool,
    endpoint: Result<Option<&str>, Error>,
    flow: GracefulFlow,
    post: ManagerState,
    action: GracefulAction,
)
    requires
        switch::graceful_begun(pre, terminal, endpoint, flow, post, action),
        pre.ctrl.quarantine@.len() == 0,
    ensures
        pre.ctrl.current is None || terminal ==> post == pre && (action
            matches GracefulAction::Done(Err(e)) && e is NotStarted),
        pre.ctrl.current matches Some(active) ==> (!terminal ==> {
            &&& flow.epoch == pre.epoch + 1
            &&& post.epoch == flow.epoch
            &&& flow.old_epoch == active.revision.epoch
            &&& post.ctrl == pre.ctrl
            &&& post.status == pre.status
            &&& endpoint matches Err(e) ==> flow.phase == (GracefulPhase::Abandoning { error: e })
            &&& action matches GracefulAction::StageFull { epoch, bytes } ==> epoch == flow.epoch
                && (flow.phase matches GracefulPhase::StagingFull { configs } && bytes@
                == configs.full.bytes@ && configs.restoration is None)
            &&& action is Convert ==> (flow.phase matches GracefulPhase::Converting { configs }
                && configs.restoration is Some)
            &&& action is Cleanup ==> action == (GracefulAction::Cleanup { epoch: flow.epoch })
        }),
{
}

/// While the new core is brought up the old one is left as it is. Both configurations
/// are staged and checked, the full one first; the first one is installed and launched
/// under the new epoch, and the manager tells of a switch from one epoch to the other.
pub proof fn law_a_switch_brings_up_the_bootstrap(
    pre: GracefulFlow,
    before: ManagerState,
    event: GracefulEvent,
    post: GracefulFlow,
    after: ManagerState,
    action: GracefulAction,
    now_ms: i64,
)
    requires
        switch::graceful_step(pre, before, event, post, after, action, now_ms),
    ensures
        post.epoch == pre.epoch && post.old_epoch == pre.old_epoch,
        pre.phase matches GracefulPhase::Converting { configs } ==> ((event
            matches GracefulEvent::Converted(Ok(()))) ==> post.phase == (
        GracefulPhase::StagingFull { configs }) && (action matches GracefulAction::StageFull {
            epoch,
            bytes,
        } && epoch == pre.epoch && bytes@ == configs.full.bytes@) && after == before),
        pre.phase matches GracefulPhase::StagingFull { configs } ==> (event
            matches GracefulEvent::Staged(Ok(full)) ==> post.phase == (
        GracefulPhase::CheckingFull { configs, full }) && (action
            matches GracefulAction::CheckStaged { spec } && spec.config_path == full && spec.core
            == pre.request.spec.core && spec.working_dir == pre.request.spec.working_dir
            && spec.options == pre.request.spec.options) && after == before),
        pre.phase matches GracefulPhase::CheckingFull { configs, full } ==> ((event
            matches GracefulEvent::Checked(Ok(()))) ==> post.phase == (
        GracefulPhase::StagingBootstrap { configs, full }) && (action
            matches GracefulAction::StageBootstrap { epoch, bytes } && epoch == pre.epoch && bytes@
            == configs.bootstrap.bytes@) && after == before),
        pre.phase matches GracefulPhase::StagingBootstrap { configs, full } ==> (event
            matches GracefulEvent::Staged(Ok(bootstrap)) ==> post.phase == (
        GracefulPhase::CheckingBootstrap { configs, full, bootstrap }) && (action
            matches GracefulAction::CheckStaged { spec } && spec.config_path == bootstrap)
            && after == before),
        pre.phase matches GracefulPhase::CheckingBootstrap { configs, full, bootstrap } ==> ((event
            matches GracefulEvent::Checked(Ok(()))) ==> post.phase == (GracefulPhase::Committing {
            configs,
            full,
        }) && action == (GracefulAction::CommitBootstrap { epoch: pre.epoch, staged: bootstrap })
            && after == before),
        pre.phase matches GracefulPhase::Committing { configs, full } ==> (event
            matches GracefulEvent::Committed(Ok(path)) ==> (post.phase
            matches GracefulPhase::Launching { active, full: kept } && {
            &&& kept == full
            &&& active.revision.epoch == pre.epoch
            &&& active.revision.generation == 1
            &&& active.revision.source_hash == configs.full.source_hash
            &&& active.revision.effective_hash == configs.full.effective_hash
            &&& active.revision.runtime_path@ == path@
            &&& active.effective_document == configs.full.document
            &&& active.controller == configs.full.controller
            &&& active.source_spec == pre.request.spec
            &&& active.effective_spec.config_path@ == path@
            &&& value::entries(active.source_document@) == pre.request.snapshot.table()
            &&& post.restoration == configs.restoration
            &&& action matches GracefulAction::Launch(request) && request.effective_spec
                == active.effective_spec && request.epoch == pre.epoch && request.controller
                == active.controller && request.role is Bootstrap
            &&& after.ctrl == before.ctrl
            &&& after.status.state == (CoreState::Switching {
                from: Some(pre.old_epoch),
                to: pre.epoch,
            })
            &&& speaks_of(after.status, active)
        })),
        pre.phase matches GracefulPhase::Launching { active, full } ==> (event
            matches GracefulEvent::Launched(LaunchEnd::Ready(_)) ==> action == (
        GracefulAction::StopOld { epoch: pre.old_epoch }) && post.phase == (
        GracefulPhase::StoppingOld { active, full }) && after.ctrl.current is None
            && post.restoration == pre.restoration),
{
}

/// Where the new core cannot be brought up, its files are removed, the old one is told
/// of again as it stands, and the error for which it was given up is answered. Only a
/// new core that may still run is put in quarantine.
pub proof fn law_a_switch_falls_back_to_the_old_core(
    pre: GracefulFlow,
    before: ManagerState,
    event: GracefulEvent,
    post: GracefulFlow,
    after: ManagerState,
    action: GracefulAction,
    now_ms: i64,
    e: Error,
)
    requires
        switch::graceful_step(pre, before, event, post, after, action, now_ms),
    ensures
        (pre.phase is Converting && event == GracefulEvent::Converted(Err(e))) || ((pre.phase
            is StagingFull || pre.phase is StagingBootstrap) && event == GracefulEvent::Staged(
            Err(e),
        )) || ((pre.phase is CheckingFull || pre.phase is CheckingBootstrap) && event
            == GracefulEvent::Checked(Err(e))) || (pre.phase is Committing && event
            == GracefulEvent::Committed(Err(e))) || (pre.phase is Launching && (event
            == GracefulEvent::Launched(LaunchEnd::Refused(e)) || event == GracefulEvent::Launched(
            LaunchEnd::Rejected(e),
        ))) ==> post.phase == (GracefulPhase::Abandoning { error: e }) && action == (
        GracefulAction::Cleanup { epoch: pre.epoch }) && after == before,
        pre.phase is Launching && event == GracefulEvent::Launched(LaunchEnd::Unstopped(e))
            ==> action == GracefulAction::Done(Err(e)) && is_quarantined(
            after,
            pre.epoch,
            error::error_text(e),
        ),
        pre.phase == (GracefulPhase::Abandoning { error: e }) && event is Cleaned ==> action
            is AskRetained && post.phase == (GracefulPhase::Republishing { error: e }) && after
            == before,
        pre.phase == (GracefulPhase::Republishing { error: e }) ==> (event
            matches GracefulEvent::Retained(status) ==> action == GracefulAction::Done(Err(e))
            && after.ctrl == before.ctrl && (before.ctrl.current matches Some(active) ==> speaks_of(
            after.status,
            active,
        ) && after.status.health == status.health && (status.state
            matches InstanceState::Running { pid } ==> after.status.state == (CoreState::Running {
            epoch: active.revision.epoch,
            pid,
        })))),
{
    if pre.phase is Launching && event == GracefulEvent::Launched(LaunchEnd::Unstopped(e)) {
        lemma_quarantined(before, pre.epoch, error::error_text(e), after, now_ms);
    }
}

/// Once the old core is dead the new one gets its full configuration: the file that was
/// checked is installed and the core is told what it lacks, or only asked how it is. If
/// it takes that over it runs and the switch was a graceful one; if not, it is stopped
/// and launched anew with the full configuration, and the switch was a hard one.
pub proof fn law_a_switch_hands_over(
    pre: GracefulFlow,
    before: ManagerState,
    event: GracefulEvent,
    post: GracefulFlow,
    after: ManagerState,
    action: GracefulAction,
    now_ms: i64,
)
    requires
        switch::graceful_step(pre, before, event, post, after, action, now_ms),
    ensures
        pre.phase matches GracefulPhase::StoppingOld { active, full } ==> ((event
            matches GracefulEvent::Stopped(Ok(()))) ==> action == (
        GracefulAction::ReplaceWithFull { epoch: pre.epoch, staged: full }) && post.phase == (
        GracefulPhase::Replacing { active }) && after == before && post.restoration
            == pre.restoration),
        pre.phase matches GracefulPhase::Replacing { active } ==> (event
            matches GracefulEvent::Replaced(Ok(_)) ==> post.phase == (
        GracefulPhase::Reconciling { active }) && after == before && (pre.restoration is Some
            ==> action == (GracefulAction::Reconcile { kind: InPlaceKind::Patch })) && (
        pre.restoration is None ==> action == (GracefulAction::Reconcile {
            kind: InPlaceKind::ProbeOnly,
        }))),
        pre.phase matches GracefulPhase::Reconciling { active } ==> {
            &&& event matches GracefulEvent::Reconciled { ok: true, status } ==> runs(
                after,
                active,
                status,
            ) && action == (GracefulAction::Cleanup { epoch: pre.old_epoch }) && post.phase == (
            GracefulPhase::CleaningOld { outcome: SwitchOutcome::Graceful })
            &&& event matches GracefulEvent::Reconciled { ok: false, status } ==> after == before
                && action == (GracefulAction::StopNew { epoch: pre.epoch }) && post.phase == (
            GracefulPhase::StoppingBootstrap { active })
        },
        pre.phase matches GracefulPhase::StoppingBootstrap { active } ==> ((event
            matches GracefulEvent::Stopped(Ok(()))) ==> (action matches GracefulAction::Launch(
            request,
        ) && request.effective_spec == active.effective_spec && request.epoch
            == active.revision.epoch && request.role is HardReplacement) && post.phase == (
        GracefulPhase::Relaunching { active })),
        pre.phase matches GracefulPhase::Relaunching { active } ==> (event
            matches GracefulEvent::Launched(LaunchEnd::Ready(status)) ==> runs(
            after,
            active,
            status,
        ) && action == (GracefulAction::Cleanup { epoch: pre.old_epoch }) && post.phase == (
        GracefulPhase::CleaningOld {
            outcome: SwitchOutcome::Hard { reason: DegradeReason::PatchFailed },
        })),
        pre.phase matches GracefulPhase::CleaningOld { outcome } ==> ((event
            matches GracefulEvent::Cleaned(Ok(()))) ==> (action matches GracefulAction::Done(Ok(o))
            && (pre.warning is None ==> o == outcome) && (pre.warning matches Some(w) ==> o == (
        SwitchOutcome::DurabilityUncertain { outcome: Box::new(outcome), warning: w })))),
{
}

/// Where handing over fails nothing is left running unseen: an old core that did not
/// stop puts its epoch in quarantine once the new one was stopped and removed, and so
/// does a new core that did not stop. Any other failure is told and answered.
pub proof fn law_a_failed_handover_leaves_nothing_unseen(
    pre: GracefulFlow,
    before: ManagerState,
    event: GracefulEvent,
    post: GracefulFlow,
    after: ManagerState,
    action: GracefulAction,
    now_ms: i64,
    e: Error,
)
    requires
        switch::graceful_step(pre, before, event, post, after, action, now_ms),
    ensures
        pre.phase is StoppingOld && event == GracefulEvent::Stopped(Err(e)) ==> action == (
        GracefulAction::StopNew { epoch: pre.epoch }) && post.phase == (
        GracefulPhase::OldStuck { error: e }),
        pre.phase == (GracefulPhase::OldStuck { error: e }) && event is Stopped ==> action == (
        GracefulAction::Cleanup { epoch: pre.epoch }) && post.phase == (
        GracefulPhase::OldStuckCleaning { error: e }),
        pre.phase == (GracefulPhase::OldStuckCleaning { error: e }) && event is Cleaned ==> action
            == GracefulAction::Done(Err(e)) && (e is StopUnconfirmed ==> is_quarantined(
            after,
            pre.old_epoch,
            error::error_text(e),
        )) && (!(e is StopUnconfirmed) ==> gave_up(after, error::error_text(e))),
        pre.phase is Replacing && event == GracefulEvent::Replaced(Err(e)) ==> action == (
        GracefulAction::StopNew { epoch: pre.epoch }) && post.phase == (
        GracefulPhase::ReplaceFailed { error: e }),
        pre.phase == (GracefulPhase::ReplaceFailed { error: e }) && (event
            matches GracefulEvent::Stopped(Ok(()))) ==> action == (GracefulAction::Cleanup {
            epoch: pre.epoch,
        }) && post.phase == (GracefulPhase::ReplaceFailedCleaning { error: e }),
        pre.phase is ReplaceFailed && (event matches GracefulEvent::Stopped(Err(_))) ==> (action
            matches GracefulAction::Done(Err(x)) && x is StopUnconfirmed && is_quarantined(
            after,
            pre.epoch,
            error::error_text(x),
        )),
        pre.phase == (GracefulPhase::ReplaceFailedCleaning { error: e }) && event is Cleaned
            ==> action == GracefulAction::Done(Err(e)),
        pre.phase is StoppingBootstrap && event == GracefulEvent::Stopped(Err(e)) ==> (e
            is StopUnconfirmed ==> is_quarantined(after, pre.epoch, error::error_text(e))) && (
        action matches GracefulAction::Done(Err(x)) && (pre.warning is None ==> x == e)),
        pre.phase is Relaunching && (event == GracefulEvent::Launched(LaunchEnd::Refused(e))
            || event == GracefulEvent::Launched(LaunchEnd::Rejected(e))) ==> action == (
        GracefulAction::Cleanup { epoch: pre.epoch }) && post.phase == (GracefulPhase::Failing {
            error: e,
        }),
        pre.phase is Relaunching && event == GracefulEvent::Launched(LaunchEnd::Unstopped(e))
            ==> is_quarantined(after, pre.epoch, error::error_text(e)) && (action
            matches GracefulAction::Done(Err(x)) && (pre.warning is None ==> x == e)),
        pre.phase == (GracefulPhase::Failing { error: e }) && event is Cleaned ==> gave_up(
            after,
            error::error_text(e),
        ) && after.ctrl == before.ctrl && (action matches GracefulAction::Done(Err(x)) && (
        pre.warning is None ==> x == e)),
{
    match (pre.phase, event) {
        (GracefulPhase::OldStuckCleaning { error }, GracefulEvent::Cleaned(_)) => {
            if error is StopUnconfirmed {
                lemma_quarantined(before, pre.old_epoch, error::error_text(error), after, now_ms);
            }
        },
        (GracefulPhase::ReplaceFailed { error }, GracefulEvent::Stopped(Err(stop))) => {
            let x = action->Done_0->Err_0;
            lemma_quarantined(before, pre.epoch, error::error_text(x), after, now_ms);
        },
        (GracefulPhase::StoppingBootstrap { active }, GracefulEvent::Stopped(Err(x))) => {
            if x is StopUnconfirmed {
                lemma_quarantined(before, pre.epoch, error::error_text(x), after, now_ms);
            }
        },
        (
            GracefulPhase::Relaunching { active },
            GracefulEvent::Launched(LaunchEnd::Unstopped(x)),
        ) => {
            lemma_quarantined(before, pre.epoch, error::error_text(x), after, now_ms);
        },
        _ => {},
    }
}

// ---------------------------------------------------------------------------
// Changing in place
// ---------------------------------------------------------------------------

/// How a core is brought to its configuration follows from the change: it is told of
/// fields, or reads its file, or there is nothing to do, or nothing can be done.
pub proof fn law_changes_are_made_as_they_are_classified(change: ConfigChange)
    ensures
        reconcile::change_kind(change) is Patch <==> change is Patch,
        reconcile::change_kind(change) is Reload <==> change is Reload,
        reconcile::change_kind(change) is Nothing <==> change is Noop,
        reconcile::change_kind(change) is Impossible <==> change is Switch,
{
}

/// A core that was told of fields is asked for its configuration, whatever it answered,
/// and probed where it shows every expected value; one that read its file is probed. It
/// took over its configuration exactly where the probe is healthy, and not where the
/// time ran out.
pub proof fn law_changes_are_verified(
    pre: InPlaceFlow,
    event: InPlaceEvent,
    post: InPlaceFlow,
    action: InPlaceAction,
)
    requires
        reconcile::in_place_step(pre, event, post, action),
    ensures
        post.expected == pre.expected,
        pre.phase is Patching && event is Patched ==> action is ReadConfig && post.phase is Reading,
        pre.phase is Reading ==> (event matches InPlaceEvent::Read(Ok(actual)) ==> {
            let shown = pre.expected matches Some(projection) ==> forall|i: int|
                0 <= i < projection@.len() ==> (crate::tree::at_path(
                    Node::Table(actual.tree()),
                    (#[trigger] projection@[i]).0,
                ) matches Some(found) && value::alike(found, projection@[i].1));
            &&& shown ==> action is Probe && post.phase is Probing
            &&& !shown ==> action == InPlaceAction::Done(false)
        }),
        pre.phase is Reading && (event matches InPlaceEvent::Read(Err(_))) ==> action
            == InPlaceAction::Done(false),
        pre.phase is Reloading && (event matches InPlaceEvent::Reloaded(Ok(()))) ==> action
            is Probe && post.phase is Probing,
        pre.phase is Reloading && (event matches InPlaceEvent::Reloaded(Err(_))) ==> action
            == InPlaceAction::Done(false),
        pre.phase is Probing ==> (event matches InPlaceEvent::Probed(result) ==> action
            == InPlaceAction::Done(result is Healthy)),
        event is TimedOut && !(pre.phase is Finished) ==> action == InPlaceAction::Done(false),
        action is Done ==> post.phase is Finished,
{
    if let (InPlacePhase::Reading, InPlaceEvent::Read(Ok(actual))) = (pre.phase, event) {
        if let Some(projection) = pre.expected {
            assert(reconcile::shows(pre.expected, actual) <==> forall|i: int|
                0 <= i < projection@.len() ==> (crate::tree::at_path(
                    Node::Table(actual.tree()),
                    (#[trigger] projection@[i]).0,
                ) matches Some(found) && value::alike(found, projection@[i].1)));
        }
    }
}

// ---------------------------------------------------------------------------
// Restarting in the same epoch
// ---------------------------------------------------------------------------

/// A restart stops what runs, launches it in the same epoch with the configuration that
/// was to be applied, and runs that as the next generation.
pub proof fn law_a_restart_runs_the_desired_configuration(
    pre: CompensateFlow,
    before: ManagerState,
    event: CompensateEvent,
    post: CompensateFlow,
    after: ManagerState,
    action: CompensateAction,
    now_ms: i64,
)
    requires
        compensate::compensate_step(pre, before, event, post, after, action, now_ms),
    ensures
        pre.phase matches CompensatePhase::StoppingOld { old_active } ==> {
            &&& (event matches CompensateEvent::Stopped(Ok(()))) ==> (post.phase
                matches CompensatePhase::Launching { old_active: o, desired } && {
                &&& o == old_active
                &&& desired.revision.epoch == old_active.revision.epoch
                &&& old_active.revision.generation < u64::MAX ==> desired.revision.generation
                    == old_active.revision.generation + 1
                &&& desired.revision.effective_hash == pre.request.plan.candidate.effective_hash
                &&& desired.revision.source_hash == pre.request.plan.candidate.source_hash
                &&& desired.revision.runtime_path == old_active.revision.runtime_path
                &&& desired.effective_document == pre.request.plan.candidate.document
                &&& value::entries(desired.source_document@) == pre.request.plan.snapshot.table()
                &&& desired.source_spec == pre.request.input
                &&& desired.controller == pre.request.plan.candidate.controller
                &&& action matches CompensateAction::Launch(request) && request.effective_spec
                    == desired.effective_spec && request.epoch == desired.revision.epoch
                    && request.controller == desired.controller && request.role is Replacement
                &&& after.status.state == (CoreState::Restarting {
                    epoch: old_active.revision.epoch,
                    attempt: 0,
                })
                &&& speaks_of(after.status, desired)
                &&& after.ctrl == before.ctrl
            })
            &&& event matches CompensateEvent::Stopped(Err(e)) ==> action
                == CompensateAction::Done(Err(e)) && is_quarantined(
                after,
                old_active.revision.epoch,
                error::error_text(e),
            )
        },
        pre.phase matches CompensatePhase::Launching { old_active, desired } ==> {
            &&& event matches CompensateEvent::Launched(LaunchEnd::Ready(status)) ==> runs(
                after,
                desired,
                status,
            ) && action is RemoveBackup && post.phase == (CompensatePhase::RemovingBackup {
                outcome: ApplyOutcome::Restarted { revision: desired.revision },
            })
            &&& event matches CompensateEvent::Launched(LaunchEnd::Rejected(e)) ==> (!(e
                is StopUnconfirmed) ==> action is Restore && after == before && post.phase == (
            CompensatePhase::Restoring { old_active, apply: e }))
            &&& event matches CompensateEvent::Launched(LaunchEnd::Refused(e)) ==> (!(e
                is StopUnconfirmed) ==> action is Restore && after == before && post.phase == (
            CompensatePhase::Restoring { old_active, apply: e }))
        },
        pre.phase matches CompensatePhase::RemovingBackup { outcome } ==> (event is BackupRemoved
            ==> (action matches CompensateAction::Done(Ok(o)) && (pre.request.warnings@.len() == 0
            ==> o == outcome)) && after == before),
{
    if let (CompensatePhase::StoppingOld { old_active }, CompensateEvent::Stopped(Err(e))) = (
        pre.phase,
        event,
    ) {
        lemma_quarantined(before, old_active.revision.epoch, error::error_text(e), after, now_ms);
    }
}

/// A restart that fails goes back: the file is restored, and what ran is launched again
/// as it was. If that comes up it runs, and the outcome tells why the change failed; if
/// not, the manager says that it stopped.
pub proof fn law_a_failed_restart_goes_back(
    pre: CompensateFlow,
    before: ManagerState,
    event: CompensateEvent,
    post: CompensateFlow,
    after: ManagerState,
    action: CompensateAction,
    now_ms: i64,
)
    requires
        compensate::compensate_step(pre, before, event, post, after, action, now_ms),
    ensures
        pre.phase matches CompensatePhase::Restoring { old_active, apply } ==> {
            &&& event matches CompensateEvent::Restored(Ok(_)) ==> post.phase == (
            CompensatePhase::Relaunching { old_active, apply }) && (action
                matches CompensateAction::Launch(request) && request.effective_spec
                == old_active.effective_spec && request.epoch == old_active.revision.epoch
                && request.controller == old_active.controller && request.role is Replacement)
                && speaks_of(after.status, old_active) && after.ctrl == before.ctrl
            &&& event matches CompensateEvent::Restored(Err(_)) ==> (action
                matches CompensateAction::Done(Err(e)) && e is ApplyRollbackFailed && gave_up(
                after,
                error::error_text(e),
            )) && after.ctrl == before.ctrl
        },
        pre.phase matches CompensatePhase::Relaunching { old_active, apply } ==> {
            &&& event matches CompensateEvent::Launched(LaunchEnd::Ready(status)) ==> runs(
                after,
                old_active,
                status,
            ) && action is RemoveBackup && (post.phase matches CompensatePhase::RemovingBackup {
                outcome: ApplyOutcome::RolledBack { revision, failed_apply },
            } && revision == old_active.revision && failed_apply@ == error::error_text(apply))
            &&& event matches CompensateEvent::Launched(LaunchEnd::Rejected(e)) ==> (!(e
                is StopUnconfirmed) ==> (action matches CompensateAction::Done(Err(x)) && (x
                matches Error::ApplyRollbackFailed { apply: a, rollback: b } && a@
                == error::error_text(apply) && b@ == error::error_text(e)) && gave_up(
                after,
                error::error_text(x),
            )))
        },
        action is Restore ==> pre.phase is Launching,
{
}

// ---------------------------------------------------------------------------
// Recovering
// ---------------------------------------------------------------------------

/// The epochs in quarantine are dealt with one after the other. One whose process is
/// proven dead is cleaned up, and leaves the quarantine where that succeeded; any other
/// one stays, and what is in the way is added to what is answered in the end.
pub proof fn law_recovery_deals_with_each_epoch(
    pre: RecoverFlow,
    before: ManagerState,
    event: RecoverEvent,
    post: RecoverFlow,
    after: ManagerState,
    action: RecoverAction,
    now_ms: i64,
)
    requires
        recover::recover_step(pre, before, event, post, after, action, now_ms),
        pre.wf(),
        !(pre.phase is Finished),
    ensures
        pre.phase is Reaping ==> (event matches RecoverEvent::Reaped(Ok(outcome)) ==> if outcome
            is NotFound {
            &&& after.ctrl == before.ctrl
            &&& post.failures@.len() == pre.failures@.len() + 1
            &&& !(action matches RecoverAction::Done(Ok(())))
        } else {
            &&& action == (RecoverAction::Cleanup { epoch: pre.epochs@[pre.at as int] })
            &&& post.phase is Cleaning
            &&& post.at == pre.at
            &&& post.failures@ == pre.failures@
            &&& after.ctrl.quarantine@.len() == before.ctrl.quarantine@.len()
        }),
        pre.phase is Reaping ==> (event matches RecoverEvent::Reaped(Err(_)) ==> after.ctrl
            == before.ctrl && post.failures@.len() == pre.failures@.len() + 1 && !(action
            matches RecoverAction::Done(Ok(())))),
        pre.phase is Cleaning ==> (event matches RecoverEvent::Cleaned(Err(_)) ==> after.ctrl
            == before.ctrl && post.failures@.len() == pre.failures@.len() + 1 && !(action
            matches RecoverAction::Done(Ok(())))),
        pre.phase is Cleaning ==> (event matches RecoverEvent::Cleaned(Ok(())) ==> {
            &&& post.failures@.len() == pre.failures@.len()
            &&& forall|i: int|
                0 <= i < after.ctrl.quarantine@.len() ==> (#[trigger] after.ctrl.quarantine@[i]).epoch
                    != pre.epochs@[pre.at as int]
            &&& forall|j: int|
                0 <= j < before.ctrl.quarantine@.len() && (
                #[trigger] before.ctrl.quarantine@[j]).epoch != pre.epochs@[pre.at as int]
                    ==> exists|i: int|
                    0 <= i < after.ctrl.quarantine@.len() && (
                    #[trigger] after.ctrl.quarantine@[i]).epoch == before.ctrl.quarantine@[j].epoch
        }),
        !(action is Ignore) && post.at != pre.at && !(post.phase is Finished) ==> post.at == pre.at
            + 1 && (post.phase is Cleaning <==> pre.proven@[post.at as int]),
        after.ctrl.current == before.ctrl.current,
        after.epoch == before.epoch,
{
    let epoch = pre.epochs@[pre.at as int];
    let q = ctrl::quarantined(before.ctrl.quarantine@);
    let after_q = ctrl::quarantined(after.ctrl.quarantine@);
    assert(crate::text::strings(post.failures@).len() == post.failures@.len());
    assert(crate::text::strings(pre.failures@).len() == pre.failures@.len());
    assert(q.len() == before.ctrl.quarantine@.len());
    assert(after_q.len() == after.ctrl.quarantine@.len());
    ctrl::lemma_entry_bounds(q, epoch);
    assert(recover::with_proof(q, epoch).len() == q.len());
    if pre.phase is Cleaning && (event matches RecoverEvent::Cleaned(Ok(()))) {
        let middle = choose|middle: ManagerState|
            recover::requarantined(before, recover::without(q, epoch), middle)
                && #[trigger] recover::advanced(
                pre,
                crate::text::strings(pre.failures@),
                pre.at + 1,
                middle,
                post,
                after,
                action,
                now_ms,
            );
        assert(after_q == recover::without(q, epoch));
        recover::law_cleaned_epochs_leave(q, epoch);
        assert forall|i: int| 0 <= i < after.ctrl.quarantine@.len() implies (
        #[trigger] after.ctrl.quarantine@[i]).epoch != epoch by {
            assert(after_q[i] == after.ctrl.quarantine@[i]@);
        }
        assert forall|j: int| 0 <= j < before.ctrl.quarantine@.len() && (
        #[trigger] before.ctrl.quarantine@[j]).epoch != epoch implies exists|i: int|
            0 <= i < after.ctrl.quarantine@.len() && (#[trigger] after.ctrl.quarantine@[i]).epoch
                == before.ctrl.quarantine@[j].epoch by {
            assert(q[j] == before.ctrl.quarantine@[j]@);
            assert(after_q.contains(q[j]));
            let i = choose|i: int| 0 <= i < after_q.len() && after_q[i] == q[j];
            assert(after_q[i] == after.ctrl.quarantine@[i]@);
        }
    }
}

/// Recovery ends with the last epoch. It succeeds where nothing failed and nothing is
/// left in quarantine, and the manager tells that it stopped; otherwise it answers with
/// the first epoch that is left.
pub proof fn law_recovery_succeeds_where_nothing_is_left(
    failures: Seq<Seq<char>>,
    before: ManagerState,
    after: ManagerState,
    action: RecoverAction,
    now_ms: i64,
)
    requires
        recover::concluded(failures, before, after, action, now_ms),
    ensures
        (action matches RecoverAction::Done(Ok(()))) <==> failures.len() == 0
            && before.ctrl.quarantine@.len() == 0,
        (action matches RecoverAction::Done(Ok(()))) ==> after.status.state == (
        CoreState::Stopped { reason: None }) && after.status.revision is None && after.ctrl
            == before.ctrl,
        !(action matches RecoverAction::Done(Ok(()))) ==> after == before && (action
            matches RecoverAction::Done(Err(Error::ManagerQuarantined { epoch, .. })) && (
        before.ctrl.quarantine@.len() > 0 ==> epoch == before.ctrl.quarantine@[0].epoch)),
{
    let q = ctrl::quarantined(before.ctrl.quarantine@);
    assert(q.len() == before.ctrl.quarantine@.len());
    if q.len() > 0 {
        assert(q[0] == before.ctrl.quarantine@[0]@);
    }
}

// ---------------------------------------------------------------------------
// Setting up
// ---------------------------------------------------------------------------

/// Options are accepted exactly where there is a runtime directory, the template of the
/// controller is accepted, no timeout is zero, and the archive may hold something.
pub proof fn law_options_are_accepted_where_they_make_sense(
    options: ManagerOptions,
    r: Result<(), Error>,
)
    requires
        options::options_outcome(options, r),
    ensures
        r is Ok <==> (options.runtime_dir matches Some(dir) && dir@.len() > 0) && (
        options.controller_template matches Some(t)
            ==> crate::config::endpoint::template_outcome(t@, Ok(()))) && options.control_timeout@
            > 0 && options.reconcile_timeout@ > 0 && options.stop_timeout@ > 0
            && options.log_max_bytes > 0 && options.log_max_files > 0,
        r matches Err(e) ==> e is InvalidManagerOptions || options.controller_template is Some,
{
}

/// What earlier runs left behind is swept epoch by epoch, in order: a process that a
/// record names is dealt with, then the files of the epoch are removed, and then the
/// next one is looked at. The manager goes on after the last of them; the first failure
/// ends it.
pub proof fn law_sweeping_goes_through_all_epochs(
    pre: SweepFlow,
    event: SweepEvent,
    post: SweepFlow,
    action: SweepAction,
)
    requires
        options::sweep_step(pre, event, post, action),
        pre.at < pre.epochs@.len(),
        !(pre.phase is Finished),
    ensures
        post.epochs@ == pre.epochs@,
        pre.phase is Looking && event == SweepEvent::Looked(Ok(true)) ==> action == (
        SweepAction::Reap { epoch: pre.epochs@[pre.at as int] }) && post.at == pre.at && post.phase
            is Reaping,
        pre.phase is Looking && event == SweepEvent::Looked(Ok(false)) ==> action == (
        SweepAction::Cleanup { epoch: pre.epochs@[pre.at as int] }) && post.at == pre.at
            && post.phase is Cleaning,
        pre.phase is Reaping && (event matches SweepEvent::Reaped(Ok(_))) ==> action == (
        SweepAction::Cleanup { epoch: pre.epochs@[pre.at as int] }) && post.at == pre.at
            && post.phase is Cleaning,
        pre.phase is Cleaning && (event matches SweepEvent::Cleaned(Ok(()))) ==> if pre.at + 1
            < pre.epochs@.len() {
            post.at == pre.at + 1 && action == (SweepAction::Look {
                epoch: pre.epochs@[pre.at + 1],
            })
        } else {
            action == SweepAction::Done(Ok(pre.epochs@[pre.epochs@.len() - 1]))
        },
        pre.phase is Looking ==> (event matches SweepEvent::Looked(Err(e)) ==> action
            == SweepAction::Done(Err(e))),
        pre.phase is Reaping ==> (event matches SweepEvent::Reaped(Err(e)) ==> action
            == SweepAction::Done(Err(Error::Process(e)))),
        pre.phase is Cleaning ==> (event matches SweepEvent::Cleaned(Err(e)) ==> action
            == SweepAction::Done(Err(e))),
{
}

// ---------------------------------------------------------------------------
// Times and warnings
// ---------------------------------------------------------------------------

/// The time of the last change is now where the state that is told became another one,
/// and stays what it was where it did not.
pub open spec fn dated(before: ManagerState, after: ManagerState, now_ms: i64) -> bool {
    &&& !state::same_state(before.status.state, after.status.state) ==> after.status.changed_at
        == now_ms
    &&& before.status.state == after.status.state ==> after.status.changed_at
        == before.status.changed_at
}

/// Whatever a flow tells, the time of the last change goes by the state.
pub proof fn law_changes_are_dated(
    before: ManagerState,
    after: ManagerState,
    now_ms: i64,
    starting: (StartFlow, StartEvent, StartFlow, StartAction),
    stopping: (StopFlow, StopEvent, StopFlow, StopAction),
    switching: (GracefulFlow, GracefulEvent, GracefulFlow, GracefulAction),
    restarting: (CompensateFlow, CompensateEvent, CompensateFlow, CompensateAction),
)
    ensures
        start::start_step(
            starting.0,
            before,
            starting.1,
            starting.2,
            after,
            starting.3,
            now_ms,
        ) ==> dated(before, after, now_ms),
        stop::stop_step(stopping.0, before, stopping.1, stopping.2, after, stopping.3, now_ms)
            ==> dated(before, after, now_ms),
        switch::graceful_step(
            switching.0,
            before,
            switching.1,
            switching.2,
            after,
            switching.3,
            now_ms,
        ) ==> dated(before, after, now_ms),
        compensate::compensate_step(
            restarting.0,
            before,
            restarting.1,
            restarting.2,
            after,
            restarting.3,
            now_ms,
        ) ==> dated(before, after, now_ms),
{
    state::law_same_states(before.status.state, after.status.state);
    state::law_same_states(before.status.state, before.status.state);
}

/// What is said of a full configuration that may not outlive a crash is kept from the
/// moment it was installed, and told with whatever the switch comes to.
pub proof fn law_a_switch_tells_its_warning(
    pre: GracefulFlow,
    before: ManagerState,
    event: GracefulEvent,
    post: GracefulFlow,
    after: ManagerState,
    action: GracefulAction,
    now_ms: i64,
    e: Error,
)
    requires
        switch::graceful_step(pre, before, event, post, after, action, now_ms),
    ensures
        pre.phase is Replacing ==> (event matches GracefulEvent::Replaced(Ok(commit)) ==> (
        commit.warning() is None ==> post.warning is None) && (commit.warning() matches Some(w)
            ==> (post.warning matches Some(said) && said@ == w)) && post.restoration
            == pre.restoration),
        (pre.phase is Reconciling || pre.phase is StoppingBootstrap || pre.phase is Relaunching)
            && !(post.phase is Finished) && !(action is Ignore) ==> post.warning == pre.warning,
        (pre.phase is StoppingBootstrap && event == GracefulEvent::Stopped(Err(e))) || (pre.phase
            is Relaunching && event == GracefulEvent::Launched(LaunchEnd::Unstopped(e))) || (
        pre.phase == (GracefulPhase::Failing { error: e }) && event is Cleaned) || (pre.phase
            is CleaningOld && event == GracefulEvent::Cleaned(Err(e))) ==> action
            == GracefulAction::Done(
            Err(
                match pre.warning {
                    None => e,
                    Some(warning) => Error::DurabilityUncertain { source: Box::new(e), warning },
                },
            ),
        ),
        pre.phase is StoppingBootstrap && event == GracefulEvent::Stopped(Err(e)) && !(e
            is StopUnconfirmed) ==> gave_up(after, error::error_text(e)) && after.ctrl
            == before.ctrl,
        pre.phase == (GracefulPhase::ReplaceFailedCleaning { error: e }) && event is Cleaned
            && !(e is StopUnconfirmed) ==> gave_up(after, error::error_text(e)) && after.ctrl
            == before.ctrl,
        pre.phase is CleaningOld && event is Cleaned ==> after == before,
        pre.phase is OldStuck && event is Stopped ==> after == before,
        pre.phase is ReplaceFailed && (event matches GracefulEvent::Stopped(Ok(()))) ==> after
            == before,
{
}

/// A restart in the same epoch begins with the core that runs, which it lets go of and
/// stops; where none runs there is nothing to restart.
pub proof fn law_a_restart_begins_with_what_runs(
    before: ManagerState,
    flow: CompensateFlow,
    after: ManagerState,
    action: CompensateAction,
)
    requires
        compensate::compensate_begun(before, flow, after, action),
    ensures
        before.ctrl.current is None ==> after == before && flow.phase is Finished && (action
            matches CompensateAction::Done(Err(e)) && e is NotStarted),
        before.ctrl.current matches Some(active) ==> after.ctrl.current is None && action == (
        CompensateAction::StopOld { epoch: active.revision.epoch }) && flow.phase == (
        CompensatePhase::StoppingOld { old_active: active }) && after.status == before.status
            && after.ctrl.quarantine == before.ctrl.quarantine && after.ctrl.last_spec
            == before.ctrl.last_spec && after.epoch == before.epoch,
{
}

/// What is said of a restored file that may not outlive a crash is told with the outcome
/// of the restart, behind what was said before.
pub proof fn law_a_restart_tells_its_warnings(
    pre: CompensateFlow,
    before: ManagerState,
    event: CompensateEvent,
    post: CompensateFlow,
    after: ManagerState,
    action: CompensateAction,
    now_ms: i64,
)
    requires
        compensate::compensate_step(pre, before, event, post, after, action, now_ms),
    ensures
        pre.phase is Restoring ==> (event matches CompensateEvent::Restored(Ok(commit)) ==> (
        commit.warning() is None ==> post.request.warnings@ == pre.request.warnings@) && (
        commit.warning() matches Some(w) ==> post.request.warnings@.len()
            == pre.request.warnings@.len() + 1 && post.request.warnings@.drop_last()
            == pre.request.warnings@ && post.request.warnings@.last()@ == w)),
        (pre.phase is Launching || pre.phase is Relaunching) && !(post.phase is Finished)
            ==> post.request.warnings@ == pre.request.warnings@,
        pre.phase matches CompensatePhase::RemovingBackup { outcome } ==> (event is BackupRemoved
            && !(outcome is DurabilityUncertain) ==> (action matches CompensateAction::Done(Ok(o))
            && apply::carried_warnings(o) == pre.request.warnings@ && apply::unwrapped(o)
            == outcome)),
{
    if let CompensatePhase::RemovingBackup { outcome } = pre.phase {
        if !(outcome is DurabilityUncertain) {
            apply::law_every_warning_is_told(outcome, pre.request.warnings@);
            apply::law_warnings_keep_the_outcome(outcome, pre.request.warnings@);
        }
    }
}

/// Recovering goes through the epochs that were in quarantine when it began, with what was
/// known of them then. It touches nothing but the quarantine, and tells nothing before it
/// ends well; then the time of the last change goes by the state.
pub proof fn law_recovery_keeps_to_its_list(
    pre: RecoverFlow,
    before: ManagerState,
    event: RecoverEvent,
    post: RecoverFlow,
    after: ManagerState,
    action: RecoverAction,
    now_ms: i64,
)
    requires
        recover::recover_step(pre, before, event, post, after, action, now_ms),
    ensures
        post.epochs@ == pre.epochs@,
        post.proven@ == pre.proven@,
        after.ctrl.current == before.ctrl.current,
        after.ctrl.last_spec == before.ctrl.last_spec,
        after.epoch == before.epoch,
        !(action matches RecoverAction::Done(Ok(()))) ==> after.status == before.status,
        dated(before, after, now_ms),
{
    state::law_same_states(before.status.state, after.status.state);
    state::law_same_states(before.status.state, before.status.state);
}

/// Sweeping looks at one epoch after the other, and is over when it says so.
pub proof fn law_sweeping_ends_when_it_says_so(
    pre: SweepFlow,
    event: SweepEvent,
    post: SweepFlow,
    action: SweepAction,
)
    requires
        options::sweep_step(pre, event, post, action),
    ensures
        action is Done <==> post.phase is Finished && !(pre.phase is Finished),
        action is Look ==> post.phase is Looking,
        action is Reap ==> post.phase is Reaping,
        action is Cleanup ==> post.phase is Cleaning,
{
}

} // verus!
