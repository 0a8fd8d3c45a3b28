//! Switching to another core: side by side where that is safe, one after the other
//! where it is not.

use vstd::prelude::*;
use vstd::string::*;

use crate::capability::ResolvedFeatures;
use crate::config::mihomo;
use crate::config::mihomo::{restoration_patch, OverlapBlock};
use crate::config::runtime_store::RuntimeConfigCommit;
use crate::config::snapshot;
use crate::config::snapshot::{ConfigSnapshot, PreparedConfig};
use crate::error;
use crate::error::Error;
use crate::manager::ctrl;
use crate::manager::ctrl::{map_instance_state, Active, ManagerState};
use crate::manager::launch::{LaunchEnd, LaunchRequest, LaunchRole};
use crate::manager::reconcile;
use crate::manager::reconcile::{restoration_kind, InPlaceKind};
use crate::manager::start;
use crate::manager::start::{copy_bytes, plan, StartRequest};
use crate::manager::stop;
use crate::metadata::kind::ClashCoreKind;
use crate::platform::Platform;
use crate::spec;
use crate::spec::{same_text, InstanceSpec};
use crate::state;
use crate::state::{ConfigRevision, CoreState, InstanceStatus};
use crate::value;
use crate::value::Datum;

verus! {

// ---------------------------------------------------------------------------
// Outcomes
// ---------------------------------------------------------------------------

/// Why the cores did not run side by side.
#[derive(Debug, Clone, Copy, PartialEq, Eq, Structural)]
pub enum DegradeReason {
    NotRunning,
    UnsupportedKind,
    DnsListen,
    InboundConflict,
    PatchFailed,
    HttpController,
}

#[derive(Debug, PartialEq, Eq)]
pub enum SwitchOutcome {
    Graceful,
    Hard { reason: DegradeReason },
    DurabilityUncertain { outcome: Box<SwitchOutcome>, warning: String },
}

/// Why two cores cannot run side by side, if they cannot: the new one needs a local
/// controller, has to be of the one family that can be told of changes, and must
/// take in nothing that cannot be closed.
pub open spec fn degrade_reason(
    local_controller: bool,
    kind: ClashCoreKind,
    block: Option<OverlapBlock>,
) -> Option<DegradeReason> {
    if !local_controller {
        Some(DegradeReason::HttpController)
    } else if !(kind is Mihomo) {
        Some(DegradeReason::UnsupportedKind)
    } else {
        match block {
            None => None,
            Some(OverlapBlock::DnsListen) => Some(DegradeReason::DnsListen),
            Some(OverlapBlock::InboundSurface) => Some(DegradeReason::InboundConflict),
        }
    }
}

pub fn graceful_degrade_reason(
    local_controller: bool,
    kind: ClashCoreKind,
    block: Option<OverlapBlock>,
) -> (r: Option<DegradeReason>)
    ensures
        r == degrade_reason(local_controller, kind, block),
{
    if !local_controller {
        return Some(DegradeReason::HttpController);
    }
    if kind != ClashCoreKind::Mihomo {
        return Some(DegradeReason::UnsupportedKind);
    }
    match block {
        None => None,
        Some(OverlapBlock::DnsListen) => Some(DegradeReason::DnsListen),
        Some(OverlapBlock::InboundSurface) => Some(DegradeReason::InboundConflict),
    }
}

/// The result, with the warning of an installed configuration that may not outlive
/// a crash.
pub open spec fn durable(
    result: Result<SwitchOutcome, Error>,
    warning: Option<String>,
) -> Result<SwitchOutcome, Error> {
    match (result, warning) {
        (Ok(outcome), Some(warning)) => Ok(
            SwitchOutcome::DurabilityUncertain { outcome: Box::new(outcome), warning },
        ),
        (Err(error), Some(warning)) => Err(
            Error::DurabilityUncertain { source: Box::new(error), warning },
        ),
        (result, None) => result,
    }
}

pub fn with_durability(result: Result<SwitchOutcome, Error>, warning: Option<String>) -> (r:
    Result<SwitchOutcome, Error>)
    ensures
        r == durable(result, warning),
{
    match (result, warning) {
        (Ok(outcome), Some(warning)) => Ok(
            SwitchOutcome::DurabilityUncertain { outcome: Box::new(outcome), warning },
        ),
        (Err(error), Some(warning)) => Err(
            Error::DurabilityUncertain { source: Box::new(error), warning },
        ),
        (result, None) => result,
    }
}

// ---------------------------------------------------------------------------
// Preparing
// ---------------------------------------------------------------------------

/// The two configurations of a core that first runs beside another one, and what
/// it is told to get from the first to the second.
pub struct GracefulConfigs {
    pub full: PreparedConfig,
    pub bootstrap: PreparedConfig,
    pub restoration: Option<Vec<(Datum, Datum)>>,
}

pub open spec fn same_controller(a: PreparedConfig, b: PreparedConfig) -> bool {
    a.controller.host@ == b.controller.host@ && spec::maybe_text(a.controller.secret)
        == spec::maybe_text(b.controller.secret)
}

/// What the new core is told, of what was made of the two configurations.
pub open spec fn restoration_of(r: Result<GracefulConfigs, Error>) -> Result<
    Option<Vec<(Datum, Datum)>>,
    Error,
> {
    match r {
        Ok(configs) => Ok(configs.restoration),
        Err(e) => Err(e),
    }
}

/// What is made of the two configurations.
pub open spec fn paired(
    full: PreparedConfig,
    bootstrap: PreparedConfig,
    r: Result<GracefulConfigs, Error>,
) -> bool {
    if !same_controller(full, bootstrap) {
        r matches Err(Error::InvalidConfig(m)) && m@
            == "full and bootstrap configs resolved different controllers"@
    } else {
        exists|change: Result<mihomo::ConfigChange, Error>|
            #[trigger] mihomo::restoration_outcome(
                value::entries(bootstrap.document@),
                value::entries(full.document@),
                change,
                restoration_of(r),
            ) && (r matches Ok(configs) ==> configs.full == full && configs.bootstrap
                == bootstrap)
    }
}

pub fn pair_configs(full: PreparedConfig, bootstrap: PreparedConfig) -> (r: Result<
    GracefulConfigs,
    Error,
>)
    ensures
        paired(full, bootstrap, r),
{
    if !full.controller.host.same(&bootstrap.controller.host) || !same_text(
        &full.controller.secret,
        &bootstrap.controller.secret,
    ) {
        return Err(
            Error::InvalidConfig(
                "full and bootstrap configs resolved different controllers".to_owned(),
            ),
        );
    }
    let restoration = restoration_patch(&bootstrap.document, &full.document);
    let ghost change = choose|change: Result<mihomo::ConfigChange, Error>|
        #[trigger] mihomo::restoration_outcome(
            value::entries(bootstrap.document@),
            value::entries(full.document@),
            change,
            restoration,
        );
    match restoration {
        Ok(restoration) => {
            let r = Ok(GracefulConfigs { full, bootstrap, restoration });
            assert(mihomo::restoration_outcome(
                value::entries(bootstrap.document@),
                value::entries(full.document@),
                change,
                restoration_of(r),
            ));
            r
        },
        Err(e) => {
            let r = Err::<GracefulConfigs, Error>(e);
            assert(mihomo::restoration_outcome(
                value::entries(bootstrap.document@),
                value::entries(full.document@),
                change,
                restoration_of(r),
            ));
            r
        },
    }
}

/// What preparing a core that first runs beside another one comes to.
pub open spec fn configured(
    source: ConfigSnapshot,
    platform: Platform,
    endpoint: Option<&str>,
    r: Result<GracefulConfigs, Error>,
) -> bool {
    exists|full: Result<PreparedConfig, Error>|
        #[trigger] snapshot::prepared(
            source.table(),
            source.hash(),
            platform,
            endpoint,
            false,
            full,
        ) && (match full {
            Err(e) => r == Err::<GracefulConfigs, Error>(e),
            Ok(full) => configured_beside(source, platform, endpoint, full, r),
        })
}

pub open spec fn configured_beside(
    source: ConfigSnapshot,
    platform: Platform,
    endpoint: Option<&str>,
    full: PreparedConfig,
    r: Result<GracefulConfigs, Error>,
) -> bool {
    exists|bootstrap: Result<PreparedConfig, Error>|
        #[trigger] snapshot::prepared(
            source.table(),
            source.hash(),
            platform,
            endpoint,
            true,
            bootstrap,
        ) && (match bootstrap {
            Err(e) => r == Err::<GracefulConfigs, Error>(e),
            Ok(bootstrap) => paired(full, bootstrap, r),
        })
}

pub fn prepare_graceful(source: &ConfigSnapshot, platform: Platform, endpoint: Option<&str>) -> (r:
    Result<GracefulConfigs, Error>)
    ensures
        configured(*source, platform, endpoint, r),
{
    let full = source.prepare_full(platform, endpoint);
    let ghost full_result = full;
    assert(snapshot::prepared(
        source.table(),
        source.hash(),
        platform,
        endpoint,
        false,
        full_result,
    ));
    match full {
        Err(e) => Err(e),
        Ok(full) => {
            let bootstrap = source.prepare_bootstrap(platform, endpoint);
            let ghost bootstrap_result = bootstrap;
            assert(snapshot::prepared(
                source.table(),
                source.hash(),
                platform,
                endpoint,
                true,
                bootstrap_result,
            ));
            match bootstrap {
                Err(e) => {
                    let r = Err(e);
                    assert(configured_beside(*source, platform, endpoint, full, r));
                    r
                },
                Ok(bootstrap) => {
                    let ghost kept = full;
                    let r = pair_configs(full, bootstrap);
                    assert(configured_beside(*source, platform, endpoint, kept, r));
                    r
                },
            }
        },
    }
}

// ---------------------------------------------------------------------------
// Switching side by side
// ---------------------------------------------------------------------------

pub enum GracefulPhase {
    Converting { configs: GracefulConfigs },
    StagingFull { configs: GracefulConfigs },
    CheckingFull { configs: GracefulConfigs, full: String },
    StagingBootstrap { configs: GracefulConfigs, full: String },
    CheckingBootstrap { configs: GracefulConfigs, full: String, bootstrap: String },
    Committing { configs: GracefulConfigs, full: String },
    Launching { active: Active, full: String },
    StoppingOld { active: Active, full: String },
    /// The old core did not stop: the new one is stopped, then its files go.
    OldStuck { error: Error },
    OldStuckCleaning { error: Error },
    Replacing { active: Active },
    /// The full configuration was not installed: the new core is stopped.
    ReplaceFailed { error: Error },
    ReplaceFailedCleaning { error: Error },
    Reconciling { active: Active },
    StoppingBootstrap { active: Active },
    Relaunching { active: Active },
    CleaningOld { outcome: SwitchOutcome },
    /// The new core is given up after the old one stopped.
    Failing { error: Error },
    /// The new core is given up while the old one runs on.
    Abandoning { error: Error },
    Republishing { error: Error },
    Finished,
}

pub enum GracefulEvent {
    /// The fields that are told were read as a change of a configuration.
    Converted(Result<(), Error>),
    Staged(Result<String, Error>),
    Checked(Result<(), Error>),
    /// The staged bootstrap configuration was installed as a new one.
    Committed(Result<String, Error>),
    Launched(LaunchEnd),
    Stopped(Result<(), Error>),
    /// The staged full configuration took the place of the bootstrap one.
    Replaced(Result<RuntimeConfigCommit, Error>),
    /// Whether the new core took over the full configuration and is well, and
    /// where it stands.
    Reconciled { ok: bool, status: InstanceStatus },
    Cleaned(Result<(), Error>),
    /// Where the old core stands.
    Retained(InstanceStatus),
}

pub enum GracefulAction {
    Convert,
    StageFull { epoch: u64, bytes: Vec<u8> },
    /// Let the core check the configuration that was staged last.
    CheckStaged { spec: InstanceSpec },
    StageBootstrap { epoch: u64, bytes: Vec<u8> },
    CommitBootstrap { epoch: u64, staged: String },
    Launch(LaunchRequest),
    /// Stop forwarding its news, then stop the old instance and confirm its death.
    StopOld { epoch: u64 },
    StopNew { epoch: u64 },
    ReplaceWithFull { epoch: u64, staged: String },
    Reconcile { kind: InPlaceKind },
    Cleanup { epoch: u64 },
    AskRetained,
    Done(Result<SwitchOutcome, Error>),
    /// The event does not belong here.
    Ignore,
}

/// A switch from one epoch to the next.
pub struct GracefulFlow {
    pub request: StartRequest,
    pub features: ResolvedFeatures,
    pub old_epoch: u64,
    pub epoch: u64,
    /// What the new core is told once the old one is gone.
    pub restoration: Option<Vec<(Datum, Datum)>>,
    pub warning: Option<String>,
    pub phase: GracefulPhase,
}

/// What stays the same throughout a switch.
pub open spec fn same_switch(pre: GracefulFlow, post: GracefulFlow) -> bool {
    &&& post.request == pre.request
    &&& post.features == pre.features
    &&& post.old_epoch == pre.old_epoch
    &&& post.epoch == pre.epoch
}

/// How a switch begins. `terminal` says that the current instance has ended; `endpoint`
/// is the one that the manager owns, if any, or why it cannot be had.
pub open spec fn graceful_begun(
    pre: ManagerState,
    terminal: bool,
    endpoint: Result<Option<&str>, Error>,
    flow: GracefulFlow,
    post: ManagerState,
    action: GracefulAction,
) -> bool {
    if pre.ctrl.quarantine@.len() > 0 {
        &&& post == pre
        &&& flow.phase is Finished
        &&& action matches GracefulAction::Done(Err(e)) && ctrl::answers_quarantined(
            ctrl::quarantined(pre.ctrl.quarantine@),
            e,
        )
    } else if pre.ctrl.current is None || terminal {
        &&& post == pre
        &&& flow.phase is Finished
        &&& action matches GracefulAction::Done(Err(e)) && e is NotStarted
    } else {
        &&& start::next_epoch(pre, post, flow.epoch)
        &&& flow.old_epoch == pre.ctrl.current->0.revision.epoch
        &&& flow.warning is None
        &&& match endpoint {
            Err(error) => {
                &&& flow.phase == (GracefulPhase::Abandoning { error })
                &&& action == (GracefulAction::Cleanup { epoch: flow.epoch })
            },
            Ok(endpoint) => configuring(flow, endpoint, action),
        }
    }
}

/// What follows once the endpoint is known.
pub open spec fn configuring(
    flow: GracefulFlow,
    endpoint: Option<&str>,
    action: GracefulAction,
) -> bool {
    let source = *flow.request.snapshot;
    let platform = flow.request.platform;
    match flow.phase {
        GracefulPhase::Abandoning { error } => {
            &&& configured(source, platform, endpoint, Err(error))
            &&& action == (GracefulAction::Cleanup { epoch: flow.epoch })
        },
        GracefulPhase::Converting { configs } => {
            &&& configured(source, platform, endpoint, Ok(configs))
            &&& configs.restoration is Some
            &&& action is Convert
        },
        GracefulPhase::StagingFull { configs } => {
            &&& configured(source, platform, endpoint, Ok(configs))
            &&& configs.restoration is None
            &&& action matches GracefulAction::StageFull { epoch, bytes } && epoch == flow.epoch
                && bytes@ == configs.full.bytes@
        },
        _ => false,
    }
}

/// The new core is given up while the old one runs on.
pub open spec fn abandons(
    pre: GracefulFlow,
    before: ManagerState,
    error: Error,
    post: GracefulFlow,
    after: ManagerState,
    action: GracefulAction,
) -> bool {
    &&& after == before
    &&& post.phase == (GracefulPhase::Abandoning { error })
    &&& action == (GracefulAction::Cleanup { epoch: pre.epoch })
}

/// The old core is told of again, as it stands.
pub open spec fn republished(
    before: ManagerState,
    status: InstanceStatus,
    after: ManagerState,
    now_ms: i64,
) -> bool {
    match before.ctrl.current {
        None => after == before,
        Some(active) => {
            &&& start::tells(
                before,
                active,
                ctrl::mapped_state(active.revision.epoch, status.state),
                after,
                now_ms,
            )
            &&& after.status.health == status.health
        },
    }
}

/// The switch ends on an error after which nothing runs. A core that may still run
/// is quarantined.
pub open spec fn ends_badly(
    before: ManagerState,
    epoch: u64,
    error: Error,
    after: ManagerState,
    now_ms: i64,
) -> bool {
    if error is StopUnconfirmed {
        ctrl::latched(before, epoch, error::error_text(error), after, now_ms)
    } else {
        &&& ctrl::only_status(before, after)
        &&& ctrl::failed(after.status, error::error_text(error))
        &&& ctrl::stamped(before.status, after.status, now_ms)
    }
}

/// The warning of an installed configuration.
pub open spec fn warns(commit: RuntimeConfigCommit, warning: Option<String>) -> bool {
    spec::maybe_text(warning) == commit.warning()
}

/// What is said where the full configuration was not installed and the new core
/// did not stop.
pub open spec fn commit_words(error: Error, stop: Error) -> Seq<char> {
    "full runtime commit failed: "@ + error::error_text(error)
        + "; bootstrap stop also failed: "@ + error::error_text(stop)
}

/// How a switch goes on while the old core still runs.
pub open spec fn overlap_step(
    pre: GracefulFlow,
    before: ManagerState,
    event: GracefulEvent,
    post: GracefulFlow,
    after: ManagerState,
    action: GracefulAction,
    now_ms: i64,
) -> bool {
    match (pre.phase, event) {
        (GracefulPhase::Converting { configs }, GracefulEvent::Converted(Err(e))) => abandons(
            pre,
            before,
            e,
            post,
            after,
            action,
        ),
        (GracefulPhase::Converting { configs }, GracefulEvent::Converted(Ok(()))) => {
            &&& after == before
            &&& post.phase == (GracefulPhase::StagingFull { configs })
            &&& action matches GracefulAction::StageFull { epoch, bytes } && epoch == pre.epoch
                && bytes@ == configs.full.bytes@
        },
        (GracefulPhase::StagingFull { configs }, GracefulEvent::Staged(Err(e))) => abandons(
            pre,
            before,
            e,
            post,
            after,
            action,
        ),
        (GracefulPhase::StagingFull { configs }, GracefulEvent::Staged(Ok(full))) => {
            &&& after == before
            &&& post.phase == (GracefulPhase::CheckingFull { configs, full })
            &&& action == (GracefulAction::CheckStaged {
                spec: spec::reading(*pre.request.spec, full),
            })
        },
        (GracefulPhase::CheckingFull { .. }, GracefulEvent::Checked(Err(e))) => abandons(
            pre,
            before,
            e,
            post,
            after,
            action,
        ),
        (GracefulPhase::CheckingFull { configs, full }, GracefulEvent::Checked(Ok(()))) => {
            &&& after == before
            &&& post.phase == (GracefulPhase::StagingBootstrap { configs, full })
            &&& action matches GracefulAction::StageBootstrap { epoch, bytes } && epoch
                == pre.epoch && bytes@ == configs.bootstrap.bytes@
        },
        (GracefulPhase::StagingBootstrap { .. }, GracefulEvent::Staged(Err(e))) => abandons(
            pre,
            before,
            e,
            post,
            after,
            action,
        ),
        (
            GracefulPhase::StagingBootstrap { configs, full },
            GracefulEvent::Staged(Ok(bootstrap)),
        ) => {
            &&& after == before
            &&& post.phase == (GracefulPhase::CheckingBootstrap { configs, full, bootstrap })
            &&& action == (GracefulAction::CheckStaged {
                spec: spec::reading(*pre.request.spec, bootstrap),
            })
        },
        (GracefulPhase::CheckingBootstrap { .. }, GracefulEvent::Checked(Err(e))) => abandons(
            pre,
            before,
            e,
            post,
            after,
            action,
        ),
        (
            GracefulPhase::CheckingBootstrap { configs, full, bootstrap },
            GracefulEvent::Checked(Ok(())),
        ) => {
            &&& after == before
            &&& post.phase == (GracefulPhase::Committing { configs, full })
            &&& action == (GracefulAction::CommitBootstrap {
                epoch: pre.epoch,
                staged: bootstrap,
            })
        },
        (GracefulPhase::Committing { .. }, GracefulEvent::Committed(Err(e))) => abandons(
            pre,
            before,
            e,
            post,
            after,
            action,
        ),
        (
            GracefulPhase::Committing { configs, full },
            GracefulEvent::Committed(Ok(runtime_path)),
        ) => {
            &&& post.phase matches GracefulPhase::Launching { active, full: kept } && {
                &&& kept == full
                &&& start::first_revision(pre.epoch, configs.full, runtime_path@, active.revision)
                &&& value::entries(active.source_document@) == pre.request.snapshot.table()
                &&& start::planned(
                    pre.request.spec,
                    pre.features,
                    active.source_document,
                    configs.full,
                    pre.request.store.root(),
                    active.revision,
                    active,
                )
                &&& post.restoration == configs.restoration
                &&& start::tells(
                    before,
                    active,
                    CoreState::Switching { from: Some(pre.old_epoch), to: pre.epoch },
                    after,
                    now_ms,
                )
                &&& after.status.health is None
                &&& action == GracefulAction::Launch(
                    start::request_of(active, LaunchRole::Bootstrap),
                )
            }
        },
        (GracefulPhase::Launching { .. }, GracefulEvent::Launched(LaunchEnd::Refused(e))) =>
        abandons(pre, before, e, post, after, action),
        (GracefulPhase::Launching { .. }, GracefulEvent::Launched(LaunchEnd::Rejected(e))) =>
        abandons(pre, before, e, post, after, action),
        (GracefulPhase::Launching { .. }, GracefulEvent::Launched(LaunchEnd::Unstopped(e))) => {
            &&& ctrl::latched(before, pre.epoch, error::error_text(e), after, now_ms)
            &&& post.phase is Finished
            &&& action == GracefulAction::Done(Err(e))
        },
        (
            GracefulPhase::Launching { active, full },
            GracefulEvent::Launched(LaunchEnd::Ready(_)),
        ) => {
            &&& stop::let_go(before, after)
            &&& after.status == before.status
            &&& post.phase == (GracefulPhase::StoppingOld { active, full })
            &&& post.restoration == pre.restoration
            &&& action == (GracefulAction::StopOld { epoch: pre.old_epoch })
        },
        (GracefulPhase::Abandoning { error }, GracefulEvent::Cleaned(_)) => {
            &&& after == before
            &&& post.phase == (GracefulPhase::Republishing { error })
            &&& action is AskRetained
        },
        (GracefulPhase::Republishing { error }, GracefulEvent::Retained(status)) => {
            &&& republished(before, status, after, now_ms)
            &&& post.phase is Finished
            &&& action == GracefulAction::Done(Err(error))
        },
        _ => after == before && post.phase == pre.phase && action is Ignore,
    }
}

/// How a switch goes on once the new core is ready.
pub open spec fn handover_step(
    pre: GracefulFlow,
    before: ManagerState,
    event: GracefulEvent,
    post: GracefulFlow,
    after: ManagerState,
    action: GracefulAction,
    now_ms: i64,
) -> bool {
    match (pre.phase, event) {
        (GracefulPhase::StoppingOld { .. }, GracefulEvent::Stopped(Err(e))) => {
            &&& after == before
            &&& post.phase == (GracefulPhase::OldStuck { error: e })
            &&& action == (GracefulAction::StopNew { epoch: pre.epoch })
        },
        (GracefulPhase::OldStuck { error }, GracefulEvent::Stopped(_)) => {
            &&& after == before
            &&& post.phase == (GracefulPhase::OldStuckCleaning { error })
            &&& action == (GracefulAction::Cleanup { epoch: pre.epoch })
        },
        (GracefulPhase::OldStuckCleaning { error }, GracefulEvent::Cleaned(_)) => {
            &&& ends_badly(before, pre.old_epoch, error, after, now_ms)
            &&& post.phase is Finished
            &&& action == GracefulAction::Done(Err(error))
        },
        (GracefulPhase::StoppingOld { active, full }, GracefulEvent::Stopped(Ok(()))) => {
            &&& after == before
            &&& post.phase == (GracefulPhase::Replacing { active })
            &&& post.restoration == pre.restoration
            &&& action == (GracefulAction::ReplaceWithFull { epoch: pre.epoch, staged: full })
        },
        (GracefulPhase::Replacing { active }, GracefulEvent::Replaced(Err(e))) => {
            &&& after == before
            &&& post.phase == (GracefulPhase::ReplaceFailed { error: e })
            &&& action == (GracefulAction::StopNew { epoch: pre.epoch })
        },
        (GracefulPhase::ReplaceFailed { error }, GracefulEvent::Stopped(Ok(()))) => {
            &&& after == before
            &&& post.phase == (GracefulPhase::ReplaceFailedCleaning { error })
            &&& action == (GracefulAction::Cleanup { epoch: pre.epoch })
        },
        (GracefulPhase::ReplaceFailed { error }, GracefulEvent::Stopped(Err(stop))) => {
            &&& action matches GracefulAction::Done(Err(Error::StopUnconfirmed(m))) && m@
                == commit_words(error, stop) && ends_badly(
                before,
                pre.epoch,
                Error::StopUnconfirmed(m),
                after,
                now_ms,
            )
            &&& post.phase is Finished
        },
        (GracefulPhase::ReplaceFailedCleaning { error }, GracefulEvent::Cleaned(_)) => {
            &&& ends_badly(before, pre.epoch, error, after, now_ms)
            &&& post.phase is Finished
            &&& action == GracefulAction::Done(Err(error))
        },
        (GracefulPhase::Replacing { active }, GracefulEvent::Replaced(Ok(commit))) => {
            &&& after == before
            &&& warns(commit, post.warning)
            &&& post.phase == (GracefulPhase::Reconciling { active })
            &&& post.restoration == pre.restoration
            &&& action == (GracefulAction::Reconcile {
                kind: reconcile::restoring_kind(pre.restoration),
            })
        },
        (
            GracefulPhase::Reconciling { active },
            GracefulEvent::Reconciled { ok: true, status },
        ) => {
            &&& start::installed(before, active, status, after, now_ms)
            &&& post.phase == (GracefulPhase::CleaningOld { outcome: SwitchOutcome::Graceful })
            &&& post.warning == pre.warning
            &&& action == (GracefulAction::Cleanup { epoch: pre.old_epoch })
        },
        (
            GracefulPhase::Reconciling { active },
            GracefulEvent::Reconciled { ok: false, status },
        ) => {
            &&& after == before
            &&& post.phase == (GracefulPhase::StoppingBootstrap { active })
            &&& post.warning == pre.warning
            &&& action == (GracefulAction::StopNew { epoch: pre.epoch })
        },
        (GracefulPhase::StoppingBootstrap { active }, GracefulEvent::Stopped(Err(e))) => {
            &&& ends_badly(before, pre.epoch, e, after, now_ms)
            &&& post.phase is Finished
            &&& action == GracefulAction::Done(durable(Err(e), pre.warning))
        },
        (GracefulPhase::StoppingBootstrap { active }, GracefulEvent::Stopped(Ok(()))) => {
            &&& after == before
            &&& post.phase == (GracefulPhase::Relaunching { active })
            &&& post.warning == pre.warning
            &&& action == GracefulAction::Launch(
                start::request_of(active, LaunchRole::HardReplacement),
            )
        },
        (GracefulPhase::Relaunching { active }, GracefulEvent::Launched(LaunchEnd::Refused(e))) => {
            &&& after == before
            &&& post.phase == (GracefulPhase::Failing { error: e })
            &&& post.warning == pre.warning
            &&& action == (GracefulAction::Cleanup { epoch: pre.epoch })
        },
        (GracefulPhase::Relaunching { active }, GracefulEvent::Launched(LaunchEnd::Rejected(e))) => {
            &&& after == before
            &&& post.phase == (GracefulPhase::Failing { error: e })
            &&& post.warning == pre.warning
            &&& action == (GracefulAction::Cleanup { epoch: pre.epoch })
        },
        (
            GracefulPhase::Relaunching { active },
            GracefulEvent::Launched(LaunchEnd::Unstopped(e)),
        ) => {
            &&& ctrl::latched(before, pre.epoch, error::error_text(e), after, now_ms)
            &&& post.phase is Finished
            &&& action == GracefulAction::Done(durable(Err(e), pre.warning))
        },
        (
            GracefulPhase::Relaunching { active },
            GracefulEvent::Launched(LaunchEnd::Ready(status)),
        ) => {
            &&& start::installed(before, active, status, after, now_ms)
            &&& post.phase == (GracefulPhase::CleaningOld {
                outcome: SwitchOutcome::Hard { reason: DegradeReason::PatchFailed },
            })
            &&& post.warning == pre.warning
            &&& action == (GracefulAction::Cleanup { epoch: pre.old_epoch })
        },
        (GracefulPhase::Failing { error }, GracefulEvent::Cleaned(_)) => {
            &&& ctrl::only_status(before, after)
            &&& ctrl::failed(after.status, error::error_text(error))
            &&& ctrl::stamped(before.status, after.status, now_ms)
            &&& post.phase is Finished
            &&& action == GracefulAction::Done(durable(Err(error), pre.warning))
        },
        (GracefulPhase::CleaningOld { outcome }, GracefulEvent::Cleaned(Ok(()))) => {
            &&& after == before
            &&& post.phase is Finished
            &&& action == GracefulAction::Done(durable(Ok(outcome), pre.warning))
        },
        (GracefulPhase::CleaningOld { outcome }, GracefulEvent::Cleaned(Err(e))) => {
            &&& after == before
            &&& post.phase is Finished
            &&& action == GracefulAction::Done(durable(Err(e), pre.warning))
        },
        _ => after == before && post.phase == pre.phase && action is Ignore,
    }
}

/// The old core still runs, as far as the switch is concerned.
pub open spec fn overlapping(phase: GracefulPhase) -> bool {
    phase is Converting || phase is StagingFull || phase is CheckingFull
        || phase is StagingBootstrap || phase is CheckingBootstrap || phase is Committing
        || phase is Launching || phase is Abandoning || phase is Republishing
}

/// How a switch goes on.
pub open spec fn graceful_step(
    pre: GracefulFlow,
    before: ManagerState,
    event: GracefulEvent,
    post: GracefulFlow,
    after: ManagerState,
    action: GracefulAction,
    now_ms: i64,
) -> bool {
    &&& same_switch(pre, post)
    &&& if overlapping(pre.phase) {
        overlap_step(pre, before, event, post, after, action, now_ms)
    } else {
        handover_step(pre, before, event, post, after, action, now_ms)
    }
}

impl ManagerState {
    /// Tells of the core that runs on, as it stands.
    fn republish_retained(&mut self, status: InstanceStatus, now_ms: i64)
        ensures
            republished(*old(self), status, *final(self), now_ms),
    {
        let told = match &self.ctrl.current {
            None => None,
            Some(active) => Some(
                (
                    map_instance_state(active.revision.epoch, &status.state),
                    active.summary(),
                    active.controller.host.copy(),
                    active.revision.copy(),
                ),
            ),
        };
        if let Some((state, summary, host, revision)) = told {
            self.publish(
                state,
                status.health,
                Some(summary),
                Some(host),
                Some(revision),
                now_ms,
            );
        }
    }

    fn end_badly(&mut self, epoch: u64, error: &Error, now_ms: i64)
        ensures
            ends_badly(*old(self), epoch, *error, *final(self), now_ms),
    {
        if let Error::StopUnconfirmed(_) = error {
            self.latch_quarantine(epoch, error, now_ms);
        } else {
            self.publish_error(error, now_ms);
        }
    }
}

fn warning_of(commit: &RuntimeConfigCommit) -> (r: Option<String>)
    ensures
        warns(*commit, r),
{
    match commit.durability_warning() {
        Some(warning) => Some(warning.to_owned()),
        None => None,
    }
}

fn commit_failure(error: &Error, stop: &Error) -> (r: Error)
    ensures
        r matches Error::StopUnconfirmed(m) && m@ == commit_words(*error, *stop),
{
    let mut words = "full runtime commit failed: ".to_owned();
    words.append(error.message().as_str());
    words.append("; bootstrap stop also failed: ");
    words.append(stop.message().as_str());
    Error::StopUnconfirmed(words)
}

impl GracefulFlow {
    pub fn begin(
        state: &mut ManagerState,
        request: StartRequest,
        features: ResolvedFeatures,
        endpoint: Result<Option<&str>, Error>,
        terminal: bool,
    ) -> (r: (GracefulFlow, GracefulAction))
        requires
            old(state).epoch < u64::MAX,
        ensures
            r.0.request == request,
            r.0.features == features,
            graceful_begun(*old(state), terminal, endpoint, r.0, *final(state), r.1),
    {
        let refused = match ctrl::reject_quarantine(&state.ctrl) {
            Err(e) => Some(e),
            Ok(()) => if state.ctrl.current.is_none() || terminal {
                Some(Error::NotStarted)
            } else {
                None
            },
        };
        let old_epoch = match &state.ctrl.current {
            Some(active) => active.revision.epoch,
            None => 0,
        };
        if let Some(e) = refused {
            let flow = GracefulFlow {
                request,
                features,
                old_epoch,
                epoch: state.epoch,
                restoration: None,
                warning: None,
                phase: GracefulPhase::Finished,
            };
            return (flow, GracefulAction::Done(Err(e)));
        }
        let epoch: u64 = state.epoch + 1;
        state.epoch = epoch;
        let prepared = match endpoint {
            Err(error) => Err(error),
            Ok(endpoint) => prepare_graceful(&request.snapshot, request.platform, endpoint),
        };
        match prepared {
            Err(error) => {
                let flow = GracefulFlow {
                    request,
                    features,
                    old_epoch,
                    epoch,
                    restoration: None,
                    warning: None,
                    phase: GracefulPhase::Abandoning { error },
                };
                (flow, GracefulAction::Cleanup { epoch })
            },
            Ok(configs) => {
                let action = if configs.restoration.is_some() {
                    GracefulAction::Convert
                } else {
                    GracefulAction::StageFull { epoch, bytes: copy_bytes(&configs.full.bytes) }
                };
                let phase = if configs.restoration.is_some() {
                    GracefulPhase::Converting { configs }
                } else {
                    GracefulPhase::StagingFull { configs }
                };
                let flow = GracefulFlow {
                    request,
                    features,
                    old_epoch,
                    epoch,
                    restoration: None,
                    warning: None,
                    phase,
                };
                (flow, action)
            },
        }
    }

    fn abandon(&mut self, error: Error) -> (r: GracefulAction)
        ensures
            same_switch(*old(self), *final(self)),
            final(self).phase == (GracefulPhase::Abandoning { error }),
            r == (GracefulAction::Cleanup { epoch: old(self).epoch }),
    {
        self.phase = GracefulPhase::Abandoning { error };
        GracefulAction::Cleanup { epoch: self.epoch }
    }

    fn commit(
        &mut self,
        state: &mut ManagerState,
        configs: GracefulConfigs,
        staged: String,
        path: String,
        now_ms: i64,
    ) -> (r: GracefulAction)
        ensures
            overlap_step(
                (GracefulFlow {
                    phase: GracefulPhase::Committing { configs, full: staged },
                    ..*old(self)
                }),
                *old(state),
                GracefulEvent::Committed(Ok(path)),
                *final(self),
                *final(state),
                r,
                now_ms,
            ),
            same_switch(*old(self), *final(self)),
    {
        let GracefulConfigs { full, bootstrap: _, restoration } = configs;
        let revision = ConfigRevision {
            epoch: self.epoch,
            generation: 1,
            source_hash: full.source_hash.clone(),
            effective_hash: full.effective_hash.clone(),
            runtime_path: path,
        };
        let document = self.request.snapshot.document().clone();
        let active = plan(
            &self.request.spec,
            &self.features,
            &document,
            &full,
            &self.request.store,
            revision,
        );
        state.announce(
            &active,
            CoreState::Switching { from: Some(self.old_epoch), to: self.epoch },
            now_ms,
        );
        let request = active.request(LaunchRole::Bootstrap);
        self.restoration = restoration;
        self.phase = GracefulPhase::Launching { active, full: staged };
        GracefulAction::Launch(request)
    }

    fn overlap(
        &mut self,
        state: &mut ManagerState,
        phase: GracefulPhase,
        event: GracefulEvent,
        now_ms: i64,
    ) -> (r: GracefulAction)
        requires
            overlapping(phase),
            old(self).phase is Finished,
        ensures
            same_switch(*old(self), *final(self)),
            overlap_step(
                (GracefulFlow { phase, ..*old(self) }),
                *old(state),
                event,
                *final(self),
                *final(state),
                r,
                now_ms,
            ),
    {
        match (phase, event) {
            (GracefulPhase::Converting { .. }, GracefulEvent::Converted(Err(e))) => self.abandon(e),
            (GracefulPhase::Converting { configs }, GracefulEvent::Converted(Ok(()))) => {
                let bytes = copy_bytes(&configs.full.bytes);
                self.phase = GracefulPhase::StagingFull { configs };
                GracefulAction::StageFull { epoch: self.epoch, bytes }
            },
            (GracefulPhase::StagingFull { .. }, GracefulEvent::Staged(Err(e))) => self.abandon(e),
            (GracefulPhase::StagingFull { configs }, GracefulEvent::Staged(Ok(full))) => {
                let spec = self.request.spec.with_config(&full);
                self.phase = GracefulPhase::CheckingFull { configs, full };
                GracefulAction::CheckStaged { spec }
            },
            (GracefulPhase::CheckingFull { .. }, GracefulEvent::Checked(Err(e))) => self.abandon(e),
            (GracefulPhase::CheckingFull { configs, full }, GracefulEvent::Checked(Ok(()))) => {
                let bytes = copy_bytes(&configs.bootstrap.bytes);
                self.phase = GracefulPhase::StagingBootstrap { configs, full };
                GracefulAction::StageBootstrap { epoch: self.epoch, bytes }
            },
            (GracefulPhase::StagingBootstrap { .. }, GracefulEvent::Staged(Err(e))) => self.abandon(
                e,
            ),
            (
                GracefulPhase::StagingBootstrap { configs, full },
                GracefulEvent::Staged(Ok(bootstrap)),
            ) => {
                let spec = self.request.spec.with_config(&bootstrap);
                self.phase = GracefulPhase::CheckingBootstrap { configs, full, bootstrap };
                GracefulAction::CheckStaged { spec }
            },
            (GracefulPhase::CheckingBootstrap { .. }, GracefulEvent::Checked(Err(e))) =>
            self.abandon(e),
            (
                GracefulPhase::CheckingBootstrap { configs, full, bootstrap },
                GracefulEvent::Checked(Ok(())),
            ) => {
                self.phase = GracefulPhase::Committing { configs, full };
                GracefulAction::CommitBootstrap { epoch: self.epoch, staged: bootstrap }
            },
            (GracefulPhase::Committing { .. }, GracefulEvent::Committed(Err(e))) => self.abandon(e),
            (GracefulPhase::Committing { configs, full }, GracefulEvent::Committed(Ok(path))) =>
            self.commit(state, configs, full, path, now_ms),
            (GracefulPhase::Launching { .. }, GracefulEvent::Launched(LaunchEnd::Refused(e))) =>
            self.abandon(e),
            (GracefulPhase::Launching { .. }, GracefulEvent::Launched(LaunchEnd::Rejected(e))) =>
            self.abandon(e),
            (GracefulPhase::Launching { .. }, GracefulEvent::Launched(LaunchEnd::Unstopped(e))) => {
                state.latch_quarantine(self.epoch, &e, now_ms);
                GracefulAction::Done(Err(e))
            },
            (
                GracefulPhase::Launching { active, full },
                GracefulEvent::Launched(LaunchEnd::Ready(_)),
            ) => {
                state.ctrl.current = None;
                self.phase = GracefulPhase::StoppingOld { active, full };
                GracefulAction::StopOld { epoch: self.old_epoch }
            },
            (GracefulPhase::Abandoning { error }, GracefulEvent::Cleaned(_)) => {
                self.phase = GracefulPhase::Republishing { error };
                GracefulAction::AskRetained
            },
            (GracefulPhase::Republishing { error }, GracefulEvent::Retained(status)) => {
                state.republish_retained(status, now_ms);
                GracefulAction::Done(Err(error))
            },
            (phase, _) => {
                self.phase = phase;
                GracefulAction::Ignore
            },
        }
    }

    fn handover(
        &mut self,
        state: &mut ManagerState,
        phase: GracefulPhase,
        event: GracefulEvent,
        now_ms: i64,
    ) -> (r: GracefulAction)
        requires
            !overlapping(phase),
            old(self).phase is Finished,
        ensures
            same_switch(*old(self), *final(self)),
            handover_step(
                (GracefulFlow { phase, ..*old(self) }),
                *old(state),
                event,
                *final(self),
                *final(state),
                r,
                now_ms,
            ),
    {
        match (phase, event) {
            (GracefulPhase::StoppingOld { .. }, GracefulEvent::Stopped(Err(error))) => {
                self.phase = GracefulPhase::OldStuck { error };
                GracefulAction::StopNew { epoch: self.epoch }
            },
            (GracefulPhase::OldStuck { error }, GracefulEvent::Stopped(_)) => {
                self.phase = GracefulPhase::OldStuckCleaning { error };
                GracefulAction::Cleanup { epoch: self.epoch }
            },
            (GracefulPhase::OldStuckCleaning { error }, GracefulEvent::Cleaned(_)) => {
                state.end_badly(self.old_epoch, &error, now_ms);
                GracefulAction::Done(Err(error))
            },
            (GracefulPhase::StoppingOld { active, full }, GracefulEvent::Stopped(Ok(()))) => {
                self.phase = GracefulPhase::Replacing { active };
                GracefulAction::ReplaceWithFull { epoch: self.epoch, staged: full }
            },
            (GracefulPhase::Replacing { .. }, GracefulEvent::Replaced(Err(error))) => {
                self.phase = GracefulPhase::ReplaceFailed { error };
                GracefulAction::StopNew { epoch: self.epoch }
            },
            (GracefulPhase::ReplaceFailed { error }, GracefulEvent::Stopped(Ok(()))) => {
                self.phase = GracefulPhase::ReplaceFailedCleaning { error };
                GracefulAction::Cleanup { epoch: self.epoch }
            },
            (GracefulPhase::ReplaceFailed { error }, GracefulEvent::Stopped(Err(stop))) => {
                let e = commit_failure(&error, &stop);
                state.end_badly(self.epoch, &e, now_ms);
                GracefulAction::Done(Err(e))
            },
            (GracefulPhase::ReplaceFailedCleaning { error }, GracefulEvent::Cleaned(_)) => {
                state.end_badly(self.epoch, &error, now_ms);
                GracefulAction::Done(Err(error))
            },
            (GracefulPhase::Replacing { active }, GracefulEvent::Replaced(Ok(commit))) => {
                self.warning = warning_of(&commit);
                self.phase = GracefulPhase::Reconciling { active };
                GracefulAction::Reconcile { kind: restoration_kind(&self.restoration) }
            },
            (GracefulPhase::Reconciling { active }, GracefulEvent::Reconciled { ok, status }) => {
                if ok {
                    state.install(active, status, now_ms);
                    self.phase = GracefulPhase::CleaningOld { outcome: SwitchOutcome::Graceful };
                    GracefulAction::Cleanup { epoch: self.old_epoch }
                } else {
                    self.phase = GracefulPhase::StoppingBootstrap { active };
                    GracefulAction::StopNew { epoch: self.epoch }
                }
            },
            (GracefulPhase::StoppingBootstrap { .. }, GracefulEvent::Stopped(Err(e))) => {
                state.end_badly(self.epoch, &e, now_ms);
                self.finish(Err(e))
            },
            (GracefulPhase::StoppingBootstrap { active }, GracefulEvent::Stopped(Ok(()))) => {
                let request = active.request(LaunchRole::HardReplacement);
                self.phase = GracefulPhase::Relaunching { active };
                GracefulAction::Launch(request)
            },
            (
                GracefulPhase::Relaunching { .. },
                GracefulEvent::Launched(LaunchEnd::Refused(error)),
            ) => {
                self.phase = GracefulPhase::Failing { error };
                GracefulAction::Cleanup { epoch: self.epoch }
            },
            (
                GracefulPhase::Relaunching { .. },
                GracefulEvent::Launched(LaunchEnd::Rejected(error)),
            ) => {
                self.phase = GracefulPhase::Failing { error };
                GracefulAction::Cleanup { epoch: self.epoch }
            },
            (
                GracefulPhase::Relaunching { .. },
                GracefulEvent::Launched(LaunchEnd::Unstopped(e)),
            ) => {
                state.latch_quarantine(self.epoch, &e, now_ms);
                self.finish(Err(e))
            },
            (
                GracefulPhase::Relaunching { active },
                GracefulEvent::Launched(LaunchEnd::Ready(status)),
            ) => {
                state.install(active, status, now_ms);
                self.phase = GracefulPhase::CleaningOld {
                    outcome: SwitchOutcome::Hard { reason: DegradeReason::PatchFailed },
                };
                GracefulAction::Cleanup { epoch: self.old_epoch }
            },
            (GracefulPhase::Failing { error }, GracefulEvent::Cleaned(_)) => {
                state.publish_error(&error, now_ms);
                self.finish(Err(error))
            },
            (GracefulPhase::CleaningOld { outcome }, GracefulEvent::Cleaned(Ok(()))) => self.finish(
                Ok(outcome),
            ),
            (GracefulPhase::CleaningOld { .. }, GracefulEvent::Cleaned(Err(e))) => self.finish(
                Err(e),
            ),
            (phase, _) => {
                self.phase = phase;
                GracefulAction::Ignore
            },
        }
    }

    fn finish(&mut self, result: Result<SwitchOutcome, Error>) -> (r: GracefulAction)
        requires
            old(self).phase is Finished,
        ensures
            same_switch(*old(self), *final(self)),
            final(self).phase is Finished,
            r == GracefulAction::Done(durable(result, old(self).warning)),
    {
        let mut warning: Option<String> = None;
        core::mem::swap(&mut self.warning, &mut warning);
        GracefulAction::Done(with_durability(result, warning))
    }

    pub fn step(&mut self, state: &mut ManagerState, event: GracefulEvent, now_ms: i64) -> (r:
        GracefulAction)
        ensures
            graceful_step(*old(self), *old(state), event, *final(self), *final(state), r, now_ms),
    {
        let mut phase = GracefulPhase::Finished;
        core::mem::swap(&mut self.phase, &mut phase);
        let early = matches!(
            &phase,
            GracefulPhase::Converting { .. } | GracefulPhase::StagingFull { .. }
                | GracefulPhase::CheckingFull { .. } | GracefulPhase::StagingBootstrap { .. }
                | GracefulPhase::CheckingBootstrap { .. } | GracefulPhase::Committing { .. }
                | GracefulPhase::Launching { .. } | GracefulPhase::Abandoning { .. }
                | GracefulPhase::Republishing { .. }
        );
        if early {
            self.overlap(state, phase, event, now_ms)
        } else {
            self.handover(state, phase, event, now_ms)
        }
    }
}

// ---------------------------------------------------------------------------
// Laws
// ---------------------------------------------------------------------------

/// The old core is kept until the new one is ready: no earlier step takes it from
/// the manager, and a switch that ends before then leaves it as it was.
pub proof fn law_old_core_is_kept_until_the_new_one_is_ready(
    pre: GracefulFlow,
    before: ManagerState,
    event: GracefulEvent,
    post: GracefulFlow,
    after: ManagerState,
    action: GracefulAction,
    now_ms: i64,
)
    requires
        graceful_step(pre, before, event, post, after, action, now_ms),
        overlapping(pre.phase),
    ensures
        after.ctrl.current == before.ctrl.current || (event matches GracefulEvent::Launched(
            LaunchEnd::Ready(s),
        )),
        overlapping(post.phase) || action is Done ==> after.ctrl.current == before.ctrl.current,
{
}

/// The new core is run only once the old one is surely gone: a step that installs
/// it follows one in which the death of the old core was confirmed.
pub proof fn law_new_core_runs_after_the_old_one_is_dead(
    pre: GracefulFlow,
    before: ManagerState,
    event: GracefulEvent,
    post: GracefulFlow,
    after: ManagerState,
    action: GracefulAction,
    now_ms: i64,
)
    requires
        graceful_step(pre, before, event, post, after, action, now_ms),
        before.ctrl.current is None,
    ensures
        after.ctrl.current is Some ==> pre.phase is Reconciling || pre.phase is Relaunching,
        post.phase is Reconciling && !(pre.phase is Reconciling) ==> pre.phase is Replacing,
        post.phase is Relaunching && !(pre.phase is Relaunching) ==> pre.phase
            is StoppingBootstrap,
        post.phase is StoppingBootstrap && !(pre.phase is StoppingBootstrap) ==> pre.phase
            is Reconciling,
        post.phase is Replacing && !(pre.phase is Replacing) ==> pre.phase is StoppingOld && (event
            matches GracefulEvent::Stopped(Ok(()))),
{
}

/// A switch that succeeds leaves the new epoch running, and one whose outcome is
/// graceful had the new core take over the full configuration.
pub proof fn law_graceful_means_reconciled(
    pre: GracefulFlow,
    before: ManagerState,
    event: GracefulEvent,
    post: GracefulFlow,
    after: ManagerState,
    action: GracefulAction,
    now_ms: i64,
)
    requires
        graceful_step(pre, before, event, post, after, action, now_ms),
    ensures
        post.phase matches GracefulPhase::CleaningOld { outcome: SwitchOutcome::Graceful } && !(
        pre.phase is CleaningOld) ==> (event matches GracefulEvent::Reconciled { ok, .. } && ok)
            && after.ctrl.current is Some,
        action matches GracefulAction::Done(Ok(o)) ==> pre.phase is CleaningOld,
{
}

/// A quarantined manager does not switch.
pub proof fn law_quarantined_manager_does_not_switch(
    pre: ManagerState,
    terminal: bool,
    endpoint: Result<Option<&str>, Error>,
    flow: GracefulFlow,
    post: ManagerState,
    action: GracefulAction,
)
    requires
        graceful_begun(pre, terminal, endpoint, flow, post, action),
        pre.ctrl.quarantine@.len() > 0,
    ensures
        post == pre,
        action matches GracefulAction::Done(Err(e)) && e is ManagerQuarantined,
{
}

/// The files that are installed are those that were checked: each is handed to the
/// check under its path, and the same path is installed after the check passed.
pub proof fn law_checked_files_are_the_ones_installed(
    pre: GracefulFlow,
    before: ManagerState,
    event: GracefulEvent,
    post: GracefulFlow,
    after: ManagerState,
    action: GracefulAction,
    now_ms: i64,
)
    requires
        graceful_step(pre, before, event, post, after, action, now_ms),
    ensures
        action matches GracefulAction::CheckStaged { spec } ==> (post.phase
            matches GracefulPhase::CheckingFull { full, .. } && full == spec.config_path) || (
        post.phase matches GracefulPhase::CheckingBootstrap { bootstrap, .. } && bootstrap
            == spec.config_path),
        action matches GracefulAction::CommitBootstrap { staged, .. } ==> (pre.phase
            matches GracefulPhase::CheckingBootstrap { bootstrap, .. } && bootstrap == staged) && (
        event matches GracefulEvent::Checked(Ok(()))),
        post.phase matches GracefulPhase::StagingBootstrap { configs, full } ==> post.phase
            == pre.phase || (pre.phase == (GracefulPhase::CheckingFull { configs, full }) && (event
            matches GracefulEvent::Checked(Ok(())))),
        checked_full(post.phase) is Some && !(post.phase is StagingBootstrap) ==> checked_full(
            post.phase,
        ) == checked_full(pre.phase),
        action matches GracefulAction::ReplaceWithFull { staged, .. } ==> checked_full(pre.phase)
            == Some(staged),
{
}

/// The path of the full configuration, once it was checked and until it is installed.
pub open spec fn checked_full(phase: GracefulPhase) -> Option<String> {
    match phase {
        GracefulPhase::StagingBootstrap { full, .. } => Some(full),
        GracefulPhase::CheckingBootstrap { full, .. } => Some(full),
        GracefulPhase::Committing { full, .. } => Some(full),
        GracefulPhase::Launching { full, .. } => Some(full),
        GracefulPhase::StoppingOld { full, .. } => Some(full),
        _ => None,
    }
}

} // verus!
