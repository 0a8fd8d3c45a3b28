//! Starting a core as a new epoch.

use std::sync::Arc;

use vstd::prelude::*;
use vstd::string::*;

use crate::capability::ResolvedFeatures;
use crate::config::runtime_store;
use crate::config::runtime_store::RuntimeConfigStore;
use crate::config::snapshot;
use crate::config::snapshot::{ConfigSnapshot, PreparedConfig};
use crate::error;
use crate::error::Error;
use crate::manager::ctrl;
use crate::manager::ctrl::{Active, Document, ManagerState};
use crate::manager::launch::{LaunchEnd, LaunchRequest, LaunchRole};
use crate::path;
use crate::platform::Platform;
use crate::spec::{copy_text, CoreSpec, InstanceSpec};
use crate::state;
use crate::state::{ConfigRevision, CoreState, InstanceStatus, SpecSummary};
use crate::value;

verus! {

// ---------------------------------------------------------------------------
// What an epoch runs
// ---------------------------------------------------------------------------

/// What an epoch is launched with: the source, but for the configuration, the pid
/// record, and the version where the source gives none.
pub open spec fn effective(
    source: InstanceSpec,
    runtime_path: Seq<char>,
    version: Option<String>,
    root: Seq<char>,
    epoch: u64,
    r: InstanceSpec,
) -> bool {
    &&& r.core == (CoreSpec {
        version: match source.core.version {
            Some(_) => source.core.version,
            None => version,
        },
        ..source.core
    })
    &&& r.config_path@ == runtime_path
    &&& r.working_dir == source.working_dir
    &&& r.options == source.options
    &&& r.pid_file matches Some(p) && path::joins(root, runtime_store::pid_name(epoch), p@)
}

pub fn effective_spec(
    source: &InstanceSpec,
    runtime_path: &str,
    version: &Option<String>,
    store: &RuntimeConfigStore,
    epoch: u64,
) -> (r: InstanceSpec)
    ensures
        effective(*source, runtime_path@, *version, store.root(), epoch, r),
{
    let mut out = source.copy();
    out.config_path = runtime_path.to_owned();
    out.pid_file = Some(store.pid_path(epoch));
    if out.core.version.is_none() {
        out.core.version = copy_text(version);
    }
    out
}

/// An epoch of a prepared configuration.
pub open spec fn planned(
    source: Arc<InstanceSpec>,
    features: ResolvedFeatures,
    source_document: Document,
    prepared: PreparedConfig,
    root: Seq<char>,
    revision: ConfigRevision,
    r: Active,
) -> bool {
    &&& r.source_spec == source
    &&& effective(
        *source,
        revision.runtime_path@,
        features.version,
        root,
        revision.epoch,
        *r.effective_spec,
    )
    &&& r.controller == prepared.controller
    &&& r.capabilities == features.capabilities
    &&& r.runtime_features == features.runtime
    &&& r.source_document == source_document
    &&& r.effective_document == prepared.document
    &&& r.revision == revision
}

pub fn plan(
    source: &Arc<InstanceSpec>,
    features: &ResolvedFeatures,
    source_document: &Document,
    prepared: &PreparedConfig,
    store: &RuntimeConfigStore,
    revision: ConfigRevision,
) -> (r: Active)
    ensures
        planned(*source, *features, *source_document, *prepared, store.root(), revision, r),
{
    let spec = effective_spec(
        source,
        revision.runtime_path.as_str(),
        &features.version,
        store,
        revision.epoch,
    );
    Active {
        source_spec: source.clone(),
        effective_spec: Arc::new(spec),
        controller: prepared.controller.clone(),
        capabilities: features.capabilities,
        runtime_features: features.runtime,
        source_document: source_document.clone(),
        effective_document: prepared.document.clone(),
        revision,
    }
}

/// What is told of an epoch.
pub open spec fn summary_of(active: Active) -> SpecSummary {
    SpecSummary {
        kind: active.source_spec.core.kind,
        config_path: active.source_spec.config_path,
        capabilities: active.capabilities,
        runtime_features: active.runtime_features,
    }
}

impl Active {
    pub fn summary(&self) -> (r: SpecSummary)
        ensures
            r == summary_of(*self),
    {
        SpecSummary {
            kind: self.source_spec.core.kind,
            config_path: self.source_spec.config_path.clone(),
            capabilities: self.capabilities,
            runtime_features: self.runtime_features,
        }
    }

    pub fn request(&self, role: LaunchRole) -> (r: LaunchRequest)
        ensures
            r == request_of(*self, role),
    {
        LaunchRequest {
            effective_spec: self.effective_spec.clone(),
            epoch: self.revision.epoch,
            controller: self.controller.clone(),
            role,
        }
    }

    pub fn copy(&self) -> (r: Active)
        ensures
            r == *self,
    {
        Active {
            source_spec: self.source_spec.clone(),
            effective_spec: self.effective_spec.clone(),
            controller: self.controller.clone(),
            capabilities: self.capabilities,
            runtime_features: self.runtime_features,
            source_document: self.source_document.clone(),
            effective_document: self.effective_document.clone(),
            revision: self.revision.copy(),
        }
    }
}

pub open spec fn request_of(active: Active, role: LaunchRole) -> LaunchRequest {
    LaunchRequest {
        effective_spec: active.effective_spec,
        epoch: active.revision.epoch,
        controller: active.controller,
        role,
    }
}

/// The status tells of the epoch, in the given state.
pub open spec fn tells(
    pre: ManagerState,
    active: Active,
    state: CoreState,
    post: ManagerState,
    now_ms: i64,
) -> bool {
    &&& ctrl::only_status(pre, post)
    &&& told(pre, active, state, post, now_ms)
}

/// As above, whatever else changed.
pub open spec fn told(
    pre: ManagerState,
    active: Active,
    state: CoreState,
    post: ManagerState,
    now_ms: i64,
) -> bool {
    &&& post.status.state == state
    &&& post.status.spec == Some(summary_of(active))
    &&& post.status.controller == Some(active.controller.host)
    &&& post.status.revision == Some(active.revision)
    &&& ctrl::stamped(pre.status, post.status, now_ms)
}

/// The manager runs the epoch, and tells so.
pub open spec fn installed(
    pre: ManagerState,
    active: Active,
    status: InstanceStatus,
    post: ManagerState,
    now_ms: i64,
) -> bool {
    &&& post.ctrl.current == Some(active)
    &&& post.ctrl.last_spec == Some(active.source_spec)
    &&& post.ctrl.quarantine == pre.ctrl.quarantine
    &&& post.epoch == pre.epoch
    &&& told(
        pre,
        active,
        CoreState::Running {
            epoch: active.revision.epoch,
            pid: state::running_pid(status.state),
        },
        post,
        now_ms,
    )
    &&& post.status.health == status.health
}

impl ManagerState {
    /// Tells of an epoch in the given state, with nothing known of its health.
    pub fn announce(&mut self, active: &Active, state: CoreState, now_ms: i64)
        ensures
            tells(*old(self), *active, state, *final(self), now_ms),
            final(self).status.health is None,
    {
        self.publish(
            state,
            None,
            Some(active.summary()),
            Some(active.controller.host.copy()),
            Some(active.revision.copy()),
            now_ms,
        );
    }

    /// Runs an epoch that is ready.
    pub fn install(&mut self, active: Active, status: InstanceStatus, now_ms: i64)
        ensures
            installed(*old(self), active, status, *final(self), now_ms),
    {
        let pid: u32 = status.state.pid_or_zero();
        self.publish(
            CoreState::Running { epoch: active.revision.epoch, pid },
            status.health,
            Some(active.summary()),
            Some(active.controller.host.copy()),
            Some(active.revision.copy()),
            now_ms,
        );
        self.ctrl.last_spec = Some(active.source_spec.clone());
        self.ctrl.current = Some(active);
    }
}

// ---------------------------------------------------------------------------
// Starting
// ---------------------------------------------------------------------------

/// What is started.
pub struct StartRequest {
    pub platform: Platform,
    pub store: RuntimeConfigStore,
    pub spec: Arc<InstanceSpec>,
    pub snapshot: Arc<ConfigSnapshot>,
}

pub enum StartPhase {
    StoppingStale { epoch: u64 },
    CleaningStale { epoch: u64 },
    Resolving { epoch: u64 },
    Installing { epoch: u64, features: ResolvedFeatures, prepared: PreparedConfig },
    Checking { active: Active },
    Launching { active: Active },
    Failing { epoch: u64, error: Error },
    Finished,
}

pub enum StartEvent {
    Stopped(Result<(), Error>),
    Cleaned(Result<(), Error>),
    /// What the core can do, and the endpoint that the manager owns where it uses
    /// one.
    Resolved(Result<(ResolvedFeatures, Option<String>), Error>),
    /// The configuration was staged and installed as a new one.
    Installed(Result<String, Error>),
    Checked(Result<(), Error>),
    Launched(LaunchEnd),
}

pub enum StartAction {
    /// Stop forwarding its news, then stop the stale instance and confirm its
    /// death.
    StopStale { epoch: u64 },
    Cleanup { epoch: u64 },
    Resolve { epoch: u64 },
    /// Stage the bytes and install them as the configuration of the epoch.
    Install { epoch: u64, bytes: Vec<u8> },
    Check { spec: Arc<InstanceSpec> },
    Launch(LaunchRequest),
    /// Where it succeeded, the news of the instance are forwarded from now on.
    Done(Result<(), Error>),
    /// The event does not belong here.
    Ignore,
}

pub struct StartFlow {
    pub request: StartRequest,
    pub phase: StartPhase,
}

/// The next epoch is begun.
pub open spec fn next_epoch(pre: ManagerState, post: ManagerState, epoch: u64) -> bool {
    epoch == pre.epoch + 1 && post == (ManagerState { epoch, ..pre })
}

/// How starting begins. `terminal` says that the current instance has ended.
pub open spec fn start_begun(
    pre: ManagerState,
    terminal: bool,
    flow: StartFlow,
    post: ManagerState,
    action: StartAction,
) -> bool {
    if pre.ctrl.quarantine@.len() > 0 {
        &&& post == pre
        &&& flow.phase is Finished
        &&& action matches StartAction::Done(Err(e)) && ctrl::answers_quarantined(
            ctrl::quarantined(pre.ctrl.quarantine@),
            e,
        )
    } else {
        match pre.ctrl.current {
            Some(active) => if !terminal {
                &&& post == pre
                &&& flow.phase is Finished
                &&& action matches StartAction::Done(Err(e)) && e is AlreadyRunning
            } else {
                let epoch = active.revision.epoch;
                &&& post.ctrl.current is None
                &&& post.ctrl.last_spec == pre.ctrl.last_spec
                &&& post.ctrl.quarantine == pre.ctrl.quarantine
                &&& post.status == pre.status
                &&& post.epoch == pre.epoch
                &&& flow.phase == (StartPhase::StoppingStale { epoch })
                &&& action == (StartAction::StopStale { epoch })
            },
            None => {
                &&& next_epoch(pre, post, post.epoch)
                &&& flow.phase == (StartPhase::Resolving { epoch: post.epoch })
                &&& action == (StartAction::Resolve { epoch: post.epoch })
            },
        }
    }
}

/// The endpoint that a configuration is prepared with.
pub open spec fn endpoint_text(endpoint: Option<String>) -> Option<Seq<char>> {
    match endpoint {
        Some(e) => Some(e@),
        None => None,
    }
}

/// What preparing the configuration comes to, with the endpoint where the manager
/// owns one.
pub open spec fn prepares(
    source: ConfigSnapshot,
    platform: Platform,
    endpoint: Option<String>,
    r: Result<PreparedConfig, Error>,
) -> bool {
    exists|e: Option<&str>|
        runtime_store::text_of(e) == endpoint_text(endpoint) && #[trigger] snapshot::prepared(
            source.table(),
            source.hash(),
            platform,
            e,
            false,
            r,
        )
}

pub fn prepare_with(source: &ConfigSnapshot, platform: Platform, endpoint: &Option<String>) -> (r:
    Result<PreparedConfig, Error>)
    ensures
        prepares(*source, platform, *endpoint, r),
{
    let e = match endpoint {
        Some(endpoint) => Some(endpoint.as_str()),
        None => None,
    };
    let r = source.prepare_full(platform, e);
    assert(snapshot::prepared(source.table(), source.hash(), platform, e, false, r));
    r
}

/// The first revision of an epoch.
pub open spec fn first_revision(
    epoch: u64,
    prepared: PreparedConfig,
    runtime_path: Seq<char>,
    r: ConfigRevision,
) -> bool {
    &&& r.epoch == epoch
    &&& r.generation == 1
    &&& r.source_hash == prepared.source_hash
    &&& r.effective_hash == prepared.effective_hash
    &&& r.runtime_path@ == runtime_path
}

/// How starting goes on.
pub open spec fn start_step(
    pre: StartFlow,
    before: ManagerState,
    event: StartEvent,
    post: StartFlow,
    after: ManagerState,
    action: StartAction,
    now_ms: i64,
) -> bool {
    &&& post.request == pre.request
    &&& match (pre.phase, event) {
        (StartPhase::StoppingStale { epoch }, StartEvent::Stopped(Err(e))) => {
            &&& ctrl::latched(before, epoch, error::error_text(e), after, now_ms)
            &&& post.phase is Finished
            &&& action == StartAction::Done(Err(e))
        },
        (StartPhase::StoppingStale { epoch }, StartEvent::Stopped(Ok(()))) => {
            &&& after == before
            &&& post.phase == (StartPhase::CleaningStale { epoch })
            &&& action == (StartAction::Cleanup { epoch })
        },
        (StartPhase::CleaningStale { epoch }, StartEvent::Cleaned(Err(e))) => {
            &&& after == before
            &&& post.phase is Finished
            &&& action == StartAction::Done(Err(e))
        },
        (StartPhase::CleaningStale { epoch }, StartEvent::Cleaned(Ok(()))) => {
            &&& next_epoch(before, after, after.epoch)
            &&& post.phase == (StartPhase::Resolving { epoch: after.epoch })
            &&& action == (StartAction::Resolve { epoch: after.epoch })
        },
        (StartPhase::Resolving { epoch }, StartEvent::Resolved(Err(e))) => {
            &&& after == before
            &&& post.phase is Finished
            &&& action == StartAction::Done(Err(e))
        },
        (StartPhase::Resolving { epoch }, StartEvent::Resolved(Ok((features, endpoint)))) => {
            &&& after == before
            &&& match action {
                StartAction::Install { epoch: e, bytes } => e == epoch && (post.phase
                    matches StartPhase::Installing { epoch: e2, features: f, prepared } && e2
                    == epoch && f == features && bytes@ == prepared.bytes@ && prepares(
                    *pre.request.snapshot,
                    pre.request.platform,
                    endpoint,
                    Ok(prepared),
                )),
                StartAction::Done(Err(e)) => post.phase is Finished && prepares(
                    *pre.request.snapshot,
                    pre.request.platform,
                    endpoint,
                    Err(e),
                ),
                _ => false,
            }
        },
        (StartPhase::Installing { epoch, features, prepared }, StartEvent::Installed(Err(e))) => {
            &&& after == before
            &&& post.phase is Finished
            &&& action == StartAction::Done(Err(e))
        },
        (
            StartPhase::Installing { epoch, features, prepared },
            StartEvent::Installed(Ok(runtime_path)),
        ) => {
            &&& after == before
            &&& post.phase matches StartPhase::Checking { active } && {
                &&& first_revision(epoch, prepared, runtime_path@, active.revision)
                &&& value::entries(active.source_document@) == pre.request.snapshot.table()
                &&& planned(
                    pre.request.spec,
                    features,
                    active.source_document,
                    prepared,
                    pre.request.store.root(),
                    active.revision,
                    active,
                )
                &&& action == (StartAction::Check { spec: active.effective_spec })
            }
        },
        (StartPhase::Checking { active }, StartEvent::Checked(Err(e))) => {
            &&& after == before
            &&& post.phase == (StartPhase::Failing { epoch: active.revision.epoch, error: e })
            &&& action == (StartAction::Cleanup { epoch: active.revision.epoch })
        },
        (StartPhase::Checking { active }, StartEvent::Checked(Ok(()))) => {
            &&& tells(
                before,
                active,
                CoreState::Starting { epoch: active.revision.epoch },
                after,
                now_ms,
            )
            &&& after.status.health is None
            &&& post.phase == (StartPhase::Launching { active })
            &&& action == StartAction::Launch(request_of(active, LaunchRole::Initial))
        },
        (StartPhase::Launching { active }, StartEvent::Launched(LaunchEnd::Refused(e))) => {
            &&& after == before
            &&& post.phase == (StartPhase::Failing { epoch: active.revision.epoch, error: e })
            &&& action == (StartAction::Cleanup { epoch: active.revision.epoch })
        },
        (StartPhase::Launching { active }, StartEvent::Launched(LaunchEnd::Rejected(e))) => {
            &&& after == before
            &&& post.phase == (StartPhase::Failing { epoch: active.revision.epoch, error: e })
            &&& action == (StartAction::Cleanup { epoch: active.revision.epoch })
        },
        (StartPhase::Launching { active }, StartEvent::Launched(LaunchEnd::Unstopped(e))) => {
            &&& ctrl::latched(before, active.revision.epoch, error::error_text(e), after, now_ms)
            &&& post.phase is Finished
            &&& action == StartAction::Done(Err(e))
        },
        (StartPhase::Launching { active }, StartEvent::Launched(LaunchEnd::Ready(status))) => {
            &&& installed(before, active, status, after, now_ms)
            &&& post.phase is Finished
            &&& action matches StartAction::Done(Ok(()))
        },
        (StartPhase::Failing { epoch, error }, StartEvent::Cleaned(_)) => {
            &&& ctrl::only_status(before, after)
            &&& ctrl::failed(after.status, error::error_text(error))
            &&& ctrl::stamped(before.status, after.status, now_ms)
            &&& post.phase is Finished
            &&& action == StartAction::Done(Err(error))
        },
        _ => after == before && post == pre && action is Ignore,
    }
}

impl StartFlow {
    pub fn begin(
        state: &mut ManagerState,
        request: StartRequest,
        terminal: bool,
    ) -> (r: (StartFlow, StartAction))
        requires
            old(state).epoch < u64::MAX,
        ensures
            r.0.request == request,
            start_begun(*old(state), terminal, r.0, *final(state), r.1),
    {
        if let Err(e) = ctrl::reject_quarantine(&state.ctrl) {
            return (
                StartFlow { request, phase: StartPhase::Finished },
                StartAction::Done(Err(e)),
            );
        }
        if state.ctrl.current.is_some() && !terminal {
            return (
                StartFlow { request, phase: StartPhase::Finished },
                StartAction::Done(Err(Error::AlreadyRunning)),
            );
        }
        let mut stale: Option<Active> = None;
        core::mem::swap(&mut state.ctrl.current, &mut stale);
        match stale {
            Some(active) => {
                let epoch = active.revision.epoch;
                (
                    StartFlow { request, phase: StartPhase::StoppingStale { epoch } },
                    StartAction::StopStale { epoch },
                )
            },
            None => {
                let epoch: u64 = state.epoch + 1;
                state.epoch = epoch;
                (
                    StartFlow { request, phase: StartPhase::Resolving { epoch } },
                    StartAction::Resolve { epoch },
                )
            },
        }
    }

    pub fn step(&mut self, state: &mut ManagerState, event: StartEvent, now_ms: i64) -> (r:
        StartAction)
        requires
            old(state).epoch < u64::MAX,
        ensures
            start_step(*old(self), *old(state), event, *final(self), *final(state), r, now_ms),
    {
        let mut phase = StartPhase::Finished;
        core::mem::swap(&mut self.phase, &mut phase);
        match (phase, event) {
            (StartPhase::StoppingStale { epoch }, StartEvent::Stopped(Err(e))) => {
                state.latch_quarantine(epoch, &e, now_ms);
                StartAction::Done(Err(e))
            },
            (StartPhase::StoppingStale { epoch }, StartEvent::Stopped(Ok(()))) => {
                self.phase = StartPhase::CleaningStale { epoch };
                StartAction::Cleanup { epoch }
            },
            (StartPhase::CleaningStale { .. }, StartEvent::Cleaned(Err(e))) => StartAction::Done(
                Err(e),
            ),
            (StartPhase::CleaningStale { .. }, StartEvent::Cleaned(Ok(()))) => {
                let epoch: u64 = state.epoch + 1;
                state.epoch = epoch;
                self.phase = StartPhase::Resolving { epoch };
                StartAction::Resolve { epoch }
            },
            (StartPhase::Resolving { .. }, StartEvent::Resolved(Err(e))) => StartAction::Done(
                Err(e),
            ),
            (StartPhase::Resolving { epoch }, StartEvent::Resolved(Ok((features, endpoint)))) => {
                match prepare_with(
                    &self.request.snapshot,
                    self.request.platform,
                    &endpoint,
                ) {
                    Err(e) => StartAction::Done(Err(e)),
                    Ok(prepared) => {
                        let bytes = copy_bytes(&prepared.bytes);
                        self.phase = StartPhase::Installing { epoch, features, prepared };
                        StartAction::Install { epoch, bytes }
                    },
                }
            },
            (StartPhase::Installing { .. }, StartEvent::Installed(Err(e))) => StartAction::Done(
                Err(e),
            ),
            (
                StartPhase::Installing { epoch, features, prepared },
                StartEvent::Installed(Ok(runtime_path)),
            ) => {
                let revision = ConfigRevision {
                    epoch,
                    generation: 1,
                    source_hash: prepared.source_hash.clone(),
                    effective_hash: prepared.effective_hash.clone(),
                    runtime_path,
                };
                let document = self.request.snapshot.document().clone();
                let active = plan(
                    &self.request.spec,
                    &features,
                    &document,
                    &prepared,
                    &self.request.store,
                    revision,
                );
                let spec = active.effective_spec.clone();
                self.phase = StartPhase::Checking { active };
                StartAction::Check { spec }
            },
            (StartPhase::Checking { active }, StartEvent::Checked(Err(error))) => {
                let epoch = active.revision.epoch;
                self.phase = StartPhase::Failing { epoch, error };
                StartAction::Cleanup { epoch }
            },
            (StartPhase::Checking { active }, StartEvent::Checked(Ok(()))) => {
                state.announce(
                    &active,
                    CoreState::Starting { epoch: active.revision.epoch },
                    now_ms,
                );
                let request = active.request(LaunchRole::Initial);
                self.phase = StartPhase::Launching { active };
                StartAction::Launch(request)
            },
            (StartPhase::Launching { active }, StartEvent::Launched(LaunchEnd::Refused(error))) => {
                let epoch = active.revision.epoch;
                self.phase = StartPhase::Failing { epoch, error };
                StartAction::Cleanup { epoch }
            },
            (StartPhase::Launching { active }, StartEvent::Launched(LaunchEnd::Rejected(error))) => {
                let epoch = active.revision.epoch;
                self.phase = StartPhase::Failing { epoch, error };
                StartAction::Cleanup { epoch }
            },
            (StartPhase::Launching { active }, StartEvent::Launched(LaunchEnd::Unstopped(e))) => {
                state.latch_quarantine(active.revision.epoch, &e, now_ms);
                StartAction::Done(Err(e))
            },
            (StartPhase::Launching { active }, StartEvent::Launched(LaunchEnd::Ready(status))) => {
                state.install(active, status, now_ms);
                StartAction::Done(Ok(()))
            },
            (StartPhase::Failing { error, .. }, StartEvent::Cleaned(_)) => {
                state.publish_error(&error, now_ms);
                StartAction::Done(Err(error))
            },
            (phase, _) => {
                self.phase = phase;
                StartAction::Ignore
            },
        }
    }
}

pub fn copy_bytes(bytes: &Vec<u8>) -> (r: Vec<u8>)
    ensures
        r@ == bytes@,
{
    let mut out: Vec<u8> = Vec::new();
    let n: usize = bytes.len();
    let mut i: usize = 0;
    while i < n
        invariant
            n == bytes@.len(),
            i <= n,
            out@ == bytes@.take(i as int),
        decreases n - i,
    {
        out.push(bytes[i]);
        assert(bytes@.take(i + 1) =~= bytes@.take(i as int).push(bytes@[i as int]));
        i += 1;
    }
    assert(bytes@.take(n as int) =~= bytes@);
    out
}

// ---------------------------------------------------------------------------
// Laws
// ---------------------------------------------------------------------------

/// A quarantined manager starts nothing and changes nothing.
pub proof fn law_quarantined_manager_starts_nothing(
    pre: ManagerState,
    terminal: bool,
    flow: StartFlow,
    post: ManagerState,
    action: StartAction,
)
    requires
        start_begun(pre, terminal, flow, post, action),
        pre.ctrl.quarantine@.len() > 0,
    ensures
        post == pre,
        action matches StartAction::Done(Err(e)) && e is ManagerQuarantined,
{
}

/// A core runs only once it is ready: the manager gets a current epoch by no other
/// step, and then tells that it runs. Whatever fails leaves it without one.
pub proof fn law_only_ready_cores_run(
    pre: StartFlow,
    before: ManagerState,
    event: StartEvent,
    post: StartFlow,
    after: ManagerState,
    action: StartAction,
    now_ms: i64,
)
    requires
        start_step(pre, before, event, post, after, action, now_ms),
        before.ctrl.current is None,
    ensures
        after.ctrl.current is Some ==> (event matches StartEvent::Launched(LaunchEnd::Ready(s)))
            && after.status.state is Running,
        action matches StartAction::Done(Err(e)) ==> after.ctrl.current is None,
        action matches StartAction::Done(Ok(())) ==> after.ctrl.current is Some,
{
}

/// A failed start after the configuration was installed tells the error, unless the
/// instance could not be stopped: then its epoch is quarantined.
pub proof fn law_failed_launch_is_told(
    pre: StartFlow,
    before: ManagerState,
    event: StartEvent,
    post: StartFlow,
    after: ManagerState,
    action: StartAction,
    now_ms: i64,
)
    requires
        start_step(pre, before, event, post, after, action, now_ms),
        pre.phase is Launching || pre.phase is Failing,
        action matches StartAction::Done(Err(e)),
    ensures
        after.status.state matches CoreState::Stopped { reason: Some(_) },
        ctrl::cleared(after.status),
        pre.phase is Launching ==> after.ctrl.quarantine@.len() > 0,
{
    if pre.phase is Launching {
        assert(ctrl::quarantined(after.ctrl.quarantine@).len() == after.ctrl.quarantine@.len());
    }
}

/// A configuration that was prepared is in canonical form.
pub proof fn lemma_prepared_is_canonical(
    source: &ConfigSnapshot,
    platform: Platform,
    endpoint: Option<String>,
    candidate: PreparedConfig,
)
    requires
        prepares(*source, platform, endpoint, Ok(candidate)),
    ensures
        value::is_canonical(value::Node::Table(value::entries(candidate.document@))),
{
}

} // verus!
