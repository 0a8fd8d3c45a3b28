//! Applying a configuration to a running core: in place where that is safe, by a
//! new process where it is not, and back again where that fails.

use std::sync::Arc;

use vstd::prelude::*;
use vstd::string::*;

use crate::capability::ResolvedFeatures;
use crate::config::mihomo;
use crate::config::mihomo::{classify, ConfigChange};
use crate::config::runtime_store::{RuntimeConfigBackup, RuntimeConfigCommit, RuntimeConfigStore};
use crate::config::snapshot;
use crate::config::snapshot::{ConfigSnapshot, PreparedConfig};
use crate::error;
use crate::error::Error;
use crate::manager::ctrl;
use crate::manager::ctrl::{Active, ManagerState};
use crate::manager::reconcile;
use crate::manager::reconcile::{kind_of, InPlaceKind};
use crate::manager::start;
use crate::manager::start::{copy_bytes, prepare_with};
use crate::platform::Platform;
use crate::spec;
use crate::spec::InstanceSpec;
use crate::state;
use crate::state::{ConfigRevision, CoreStatus, RevisionId, SpecSummary};
use crate::value;
use crate::value::{copy_entries, Datum};

verus! {

// ---------------------------------------------------------------------------
// Outcomes
// ---------------------------------------------------------------------------

#[derive(Debug, PartialEq, Eq)]
pub enum ApplyOutcome {
    Started { revision: ConfigRevision },
    Noop { revision: ConfigRevision },
    Patched { revision: ConfigRevision },
    Reloaded { revision: ConfigRevision },
    Restarted { revision: ConfigRevision },
    Switched { revision: ConfigRevision },
    RolledBack { revision: ConfigRevision, failed_apply: String },
    DurabilityUncertain { outcome: Box<ApplyOutcome>, warning: String },
}

/// The outcome inside its warnings, the first one outermost.
pub open spec fn wrapped(outcome: ApplyOutcome, warnings: Seq<String>) -> ApplyOutcome
    decreases warnings.len(),
{
    if warnings.len() == 0 {
        outcome
    } else {
        ApplyOutcome::DurabilityUncertain {
            outcome: Box::new(wrapped(outcome, warnings.drop_first())),
            warning: warnings[0],
        }
    }
}

pub fn wrap_apply_warnings(outcome: ApplyOutcome, warnings: &Vec<String>) -> (r: ApplyOutcome)
    ensures
        r == wrapped(outcome, warnings@),
{
    let n: usize = warnings.len();
    let ghost all = warnings@;
    let ghost inner = outcome;
    let mut out = outcome;
    let mut i: usize = n;
    assert(all.skip(n as int) =~= Seq::empty());
    while i > 0
        invariant
            n == warnings@.len(),
            all == warnings@,
            i <= n,
            out == wrapped(inner, all.skip(i as int)),
        decreases i,
    {
        proof {
            assert(all.skip(i - 1).drop_first() =~= all.skip(i as int));
            assert(all.skip(i - 1)[0] == all[i - 1]);
        }
        out = ApplyOutcome::DurabilityUncertain {
            outcome: Box::new(out),
            warning: warnings[i - 1].clone(),
        };
        i -= 1;
    }
    assert(all.skip(0) =~= all);
    out
}

/// The outcome without its warnings.
pub open spec fn unwrapped(outcome: ApplyOutcome) -> ApplyOutcome
    decreases outcome,
{
    match outcome {
        ApplyOutcome::DurabilityUncertain { outcome, .. } => unwrapped(*outcome),
        _ => outcome,
    }
}

/// Warnings never hide an outcome.
pub proof fn law_warnings_keep_the_outcome(outcome: ApplyOutcome, warnings: Seq<String>)
    requires
        !(outcome is DurabilityUncertain),
    ensures
        unwrapped(wrapped(outcome, warnings)) == outcome,
    decreases warnings.len(),
{
    if warnings.len() > 0 {
        law_warnings_keep_the_outcome(outcome, warnings.drop_first());
    }
}

// ---------------------------------------------------------------------------
// Planning
// ---------------------------------------------------------------------------

/// What becomes of a core that did not take over its configuration in place.
#[derive(Debug, Clone, Copy, PartialEq, Eq, Structural)]
pub enum Fallback {
    /// The file is restored, and the configuration started as a new epoch.
    NewEpoch,
    /// The core is started anew in its own epoch.
    SameEpoch,
}

pub struct ApplyRequest {
    pub platform: Platform,
    pub store: RuntimeConfigStore,
    pub input: Arc<InstanceSpec>,
    pub fallback: Fallback,
}

/// The configuration that is applied.
pub struct LoadedConfig {
    pub features: ResolvedFeatures,
    pub snapshot: Arc<ConfigSnapshot>,
    /// The endpoint that the manager owns where it uses one.
    pub endpoint: Option<String>,
}

/// What applying a configuration takes.
pub struct ApplyPlan {
    pub features: ResolvedFeatures,
    pub snapshot: Arc<ConfigSnapshot>,
    pub previous_snapshot: Arc<ConfigSnapshot>,
    pub candidate: PreparedConfig,
    pub change: ConfigChange,
}

/// What it takes to bring the running core to a candidate.
pub open spec fn changes(
    previous: Active,
    input: InstanceSpec,
    source: ConfigSnapshot,
    candidate: PreparedConfig,
    r: Result<ConfigChange, Error>,
) -> bool {
    mihomo::change_outcome(
        value::entries(previous.source_document@),
        value::entries(previous.effective_document@),
        *previous.source_spec,
        source.table(),
        value::entries(candidate.document@),
        input,
        r,
    )
}

/// The running configuration, as it can be started again.
pub open spec fn retaken(previous: Active, r: Result<ConfigSnapshot, Error>) -> bool {
    snapshot::document_outcome(
        previous.source_spec.config_path@,
        value::entries(previous.source_document@),
        r,
    )
}

/// The running configuration can be started again.
pub open spec fn retakable(previous: Active) -> bool {
    exists|s: ConfigSnapshot| retaken(previous, #[trigger] taken(s))
}

pub open spec fn taken(s: ConfigSnapshot) -> Result<ConfigSnapshot, Error> {
    Ok(s)
}

/// A candidate that does not differ from what runs.
pub open spec fn nothing_to_do(
    previous: Active,
    input: InstanceSpec,
    platform: Platform,
    loaded: LoadedConfig,
    candidate: PreparedConfig,
) -> bool {
    &&& start::prepares(*loaded.snapshot, platform, loaded.endpoint, Ok(candidate))
    &&& changes(previous, input, *loaded.snapshot, candidate, Ok(ConfigChange::Noop))
}

/// A candidate that could not be classified.
pub open spec fn unclassified(
    previous: Active,
    input: InstanceSpec,
    platform: Platform,
    loaded: LoadedConfig,
    candidate: PreparedConfig,
    e: Error,
) -> bool {
    &&& start::prepares(*loaded.snapshot, platform, loaded.endpoint, Ok(candidate))
    &&& changes(previous, input, *loaded.snapshot, candidate, Err(e))
}

/// What planning comes to; none where nothing has to be done.
pub open spec fn apply_planned(
    previous: Active,
    input: InstanceSpec,
    platform: Platform,
    loaded: LoadedConfig,
    r: Result<Option<ApplyPlan>, Error>,
) -> bool {
    match r {
        Ok(Some(plan)) => {
            &&& plan.features == loaded.features
            &&& plan.snapshot == loaded.snapshot
            &&& retaken(previous, Ok(*plan.previous_snapshot))
            &&& start::prepares(*loaded.snapshot, platform, loaded.endpoint, Ok(plan.candidate))
            &&& changes(previous, input, *loaded.snapshot, plan.candidate, Ok(plan.change))
            &&& !(plan.change is Noop)
        },
        Ok(None) => retakable(previous) && exists|candidate: PreparedConfig|
            #[trigger] nothing_to_do(previous, input, platform, loaded, candidate),
        Err(e) => {
            ||| retaken(previous, Err(e))
            ||| retakable(previous) && start::prepares(
                *loaded.snapshot,
                platform,
                loaded.endpoint,
                Err(e),
            )
            ||| retakable(previous) && exists|candidate: PreparedConfig|
                #[trigger] unclassified(previous, input, platform, loaded, candidate, e)
        },
    }
}

pub fn plan_apply(
    previous: &Active,
    input: &InstanceSpec,
    platform: Platform,
    loaded: LoadedConfig,
) -> (r: Result<Option<ApplyPlan>, Error>)
    ensures
        apply_planned(*previous, *input, platform, loaded, r),
{
    let ghost given = loaded;
    let previous_snapshot = match ConfigSnapshot::from_document(
        previous.source_spec.config_path.clone(),
        &previous.source_document,
    ) {
        Ok(s) => {
            assert(retaken(*previous, taken(s)));
            Arc::new(s)
        },
        Err(e) => return Err(e),
    };
    let candidate = match prepare_with(&loaded.snapshot, platform, &loaded.endpoint) {
        Ok(c) => c,
        Err(e) => return Err(e),
    };
    let change = classify(
        &previous.source_document,
        &previous.effective_document,
        &previous.source_spec,
        loaded.snapshot.document(),
        &candidate.document,
        input,
    );
    match change {
        Err(e) => {
            assert(unclassified(*previous, *input, platform, given, candidate, e));
            Err(e)
        },
        Ok(ConfigChange::Noop) => {
            assert(nothing_to_do(*previous, *input, platform, given, candidate));
            Ok(None)
        },
        Ok(change) => Ok(
            Some(
                ApplyPlan {
                    features: loaded.features,
                    snapshot: loaded.snapshot,
                    previous_snapshot,
                    candidate,
                    change,
                },
            ),
        ),
    }
}

// ---------------------------------------------------------------------------
// Applying
// ---------------------------------------------------------------------------

/// What a core is restarted in its own epoch with.
pub struct CompensateRequest {
    pub store: RuntimeConfigStore,
    pub input: Arc<InstanceSpec>,
    pub plan: ApplyPlan,
    pub backup: RuntimeConfigBackup,
    pub warnings: Vec<String>,
}

pub enum ApplyPhase {
    Loading,
    Converting { plan: ApplyPlan },
    Staging { plan: ApplyPlan },
    Checking { plan: ApplyPlan, staged: String },
    BackingUp { plan: ApplyPlan, staged: String },
    Replacing { plan: ApplyPlan, backup: RuntimeConfigBackup },
    /// The copy is removed because its successor was not installed.
    Discarding { error: Error },
    Reconciling { plan: ApplyPlan, backup: RuntimeConfigBackup },
    /// The copy is removed because its successor is used.
    Committed { outcome: ApplyOutcome },
    Restoring { plan: ApplyPlan },
    /// The copy is removed because it was restored.
    Restored { plan: ApplyPlan },
    Stopping { plan: ApplyPlan },
    Starting { plan: ApplyPlan },
    RollingBack { apply: Error },
    Finished,
}

pub enum ApplyEvent {
    Loaded(Result<LoadedConfig, Error>),
    /// The fields that are told were read as a change of a configuration.
    Converted(Result<(), Error>),
    Staged(Result<String, Error>),
    Checked(Result<(), Error>),
    BackedUp(Result<RuntimeConfigBackup, Error>),
    Replaced(Result<RuntimeConfigCommit, Error>),
    /// Whether the core took over its configuration in time and is well.
    Reconciled(bool),
    BackupRemoved(Result<(), Error>),
    Restored(Result<RuntimeConfigCommit, Error>),
    Stopped(Result<(), Error>),
    Started(Result<(), Error>),
}

pub enum ApplyAction {
    /// Find out what the core can do, and read the configuration.
    Load { epoch: u64 },
    /// Read the fields as a change of a configuration.
    Convert { document: Vec<(Datum, Datum)> },
    Stage { epoch: u64, bytes: Vec<u8> },
    /// Let the core check the configuration that was staged.
    CheckStaged { spec: InstanceSpec },
    Backup { epoch: u64, generation: u64 },
    /// Install the staged file as the configuration of the epoch.
    Replace { epoch: u64, staged: String },
    Reconcile { kind: InPlaceKind, runtime_path: String },
    RemoveBackup,
    Restore,
    /// Stop what runs, as a flow of its own.
    Stop,
    /// Start the given configuration, as a flow of its own.
    Start { spec: Arc<InstanceSpec>, snapshot: Arc<ConfigSnapshot> },
    /// Restart in the same epoch, as a flow of its own, whose outcome is the
    /// outcome.
    Compensate(CompensateRequest),
    Done(Result<ApplyOutcome, Error>),
    /// The event does not belong here.
    Ignore,
}

pub struct ApplyFlow {
    pub request: ApplyRequest,
    /// What ran when applying began.
    pub previous: Option<Active>,
    pub warnings: Vec<String>,
    pub phase: ApplyPhase,
}

/// The revision that a caller believes to run is another one.
pub open spec fn stale(expected: Option<RevisionId>, active: Active) -> bool {
    expected matches Some(e) && !state::same_id(e, state::revision_id(active.revision))
}

/// How applying begins. `terminal` says that the current instance has ended.
pub open spec fn apply_begun(
    pre: ManagerState,
    terminal: bool,
    expected: Option<RevisionId>,
    flow: ApplyFlow,
    action: ApplyAction,
) -> bool {
    &&& flow.warnings@.len() == 0
    &&& if pre.ctrl.quarantine@.len() > 0 {
        &&& flow.phase is Finished
        &&& action matches ApplyAction::Done(Err(e)) && ctrl::answers_quarantined(
            ctrl::quarantined(pre.ctrl.quarantine@),
            e,
        )
    } else {
        match pre.ctrl.current {
            None => flow.phase is Finished && (action matches ApplyAction::Done(Err(e)) && e
                is NotStarted),
            Some(active) => if terminal {
                flow.phase is Finished && (action matches ApplyAction::Done(Err(e)) && e
                    is NotStarted)
            } else if stale(expected, active) {
                flow.phase is Finished && (action matches ApplyAction::Done(
                    Err(Error::RevisionConflict { expected: x, actual: Some(y) }),
                ) && Some(x) == expected && y == state::revision_id(active.revision))
            } else {
                &&& flow.previous == Some(active)
                &&& flow.phase is Loading
                &&& action == (ApplyAction::Load { epoch: active.revision.epoch })
            },
        }
    }
}

/// The revision that follows in the same epoch.
pub open spec fn next_revision(
    previous: ConfigRevision,
    candidate: PreparedConfig,
) -> ConfigRevision {
    ConfigRevision {
        epoch: previous.epoch,
        generation: (previous.generation + 1) as u64,
        source_hash: candidate.source_hash,
        effective_hash: candidate.effective_hash,
        runtime_path: previous.runtime_path,
    }
}

/// The running epoch took over a configuration.
pub open spec fn taken_over(
    before: ManagerState,
    input: Arc<InstanceSpec>,
    plan: ApplyPlan,
    revision: ConfigRevision,
    after: ManagerState,
) -> bool {
    match before.ctrl.current {
        None => after == before,
        Some(active) => {
            &&& after.ctrl.current matches Some(now) && {
                &&& value::entries(now.source_document@) == plan.snapshot.table()
                &&& now == (Active {
                    source_spec: input,
                    source_document: now.source_document,
                    effective_document: plan.candidate.document,
                    revision,
                    ..active
                })
            }
            &&& after.ctrl.last_spec == Some(input)
            &&& after.ctrl.quarantine == before.ctrl.quarantine
            &&& after.epoch == before.epoch
            &&& after.status == (CoreStatus {
                revision: Some(revision),
                spec: match before.status.spec {
                    None => None,
                    Some(s) => Some(SpecSummary { config_path: input.config_path, ..s }),
                },
                ..before.status
            })
        },
    }
}

/// The outcome of a change that was taken over.
pub open spec fn in_place_outcome(change: ConfigChange, revision: ConfigRevision) -> ApplyOutcome {
    match change {
        ConfigChange::Patch { .. } => ApplyOutcome::Patched { revision },
        _ => ApplyOutcome::Reloaded { revision },
    }
}

pub open spec fn in_place(change: ConfigChange) -> bool {
    change is Patch || change is Reload
}

/// The warnings, and that of an installed configuration where there is one.
pub open spec fn warned(
    before: Seq<String>,
    commit: RuntimeConfigCommit,
    after: Seq<String>,
) -> bool {
    match commit.warning() {
        None => after == before,
        Some(w) => after.len() == before.len() + 1 && after.drop_last() == before && after.last()@
            == w,
    }
}

/// Nothing but the flow changed, and no warning was added.
pub open spec fn quiet(
    pre: ApplyFlow,
    before: ManagerState,
    post: ApplyFlow,
    after: ManagerState,
) -> bool {
    after == before && post.warnings@ == pre.warnings@
}

/// How applying ends on an error.
pub open spec fn ends(
    pre: ApplyFlow,
    before: ManagerState,
    e: Error,
    post: ApplyFlow,
    after: ManagerState,
    action: ApplyAction,
) -> bool {
    &&& quiet(pre, before, post, after)
    &&& post.phase is Finished
    &&& action == ApplyAction::Done(Err(e))
}

/// How applying goes on up to the first change of anything that runs.
pub open spec fn prepare_step(
    pre: ApplyFlow,
    before: ManagerState,
    event: ApplyEvent,
    post: ApplyFlow,
    after: ManagerState,
    action: ApplyAction,
) -> bool {
    let previous = pre.previous->0;
    match (pre.phase, event) {
        (ApplyPhase::Loading, ApplyEvent::Loaded(Err(e))) => ends(
            pre,
            before,
            e,
            post,
            after,
            action,
        ),
        (ApplyPhase::Loading, ApplyEvent::Loaded(Ok(loaded))) => {
            &&& quiet(pre, before, post, after)
            &&& match post.phase {
                ApplyPhase::Converting { plan } => {
                    &&& apply_planned(
                        previous,
                        *pre.request.input,
                        pre.request.platform,
                        loaded,
                        Ok(Some(plan)),
                    )
                    &&& plan.change matches ConfigChange::Patch { document } && (action
                        matches ApplyAction::Convert { document: d } && value::entries(d@)
                        == value::entries(document@))
                },
                ApplyPhase::Staging { plan } => {
                    &&& apply_planned(
                        previous,
                        *pre.request.input,
                        pre.request.platform,
                        loaded,
                        Ok(Some(plan)),
                    )
                    &&& !(plan.change is Patch)
                    &&& action matches ApplyAction::Stage { epoch, bytes } && epoch
                        == previous.revision.epoch && bytes@ == plan.candidate.bytes@
                },
                ApplyPhase::Finished => match action {
                    ApplyAction::Done(Ok(outcome)) => outcome == (ApplyOutcome::Noop {
                        revision: previous.revision,
                    }) && apply_planned(
                        previous,
                        *pre.request.input,
                        pre.request.platform,
                        loaded,
                        Ok(None),
                    ),
                    ApplyAction::Done(Err(e)) => apply_planned(
                        previous,
                        *pre.request.input,
                        pre.request.platform,
                        loaded,
                        Err(e),
                    ),
                    _ => false,
                },
                _ => false,
            }
        },
        (ApplyPhase::Converting { plan }, ApplyEvent::Converted(Err(e))) => ends(
            pre,
            before,
            e,
            post,
            after,
            action,
        ),
        (ApplyPhase::Converting { plan }, ApplyEvent::Converted(Ok(()))) => {
            &&& quiet(pre, before, post, after)
            &&& post.phase == (ApplyPhase::Staging { plan })
            &&& action matches ApplyAction::Stage { epoch, bytes } && epoch
                == previous.revision.epoch && bytes@ == plan.candidate.bytes@
        },
        (ApplyPhase::Staging { plan }, ApplyEvent::Staged(Err(e))) => ends(
            pre,
            before,
            e,
            post,
            after,
            action,
        ),
        (ApplyPhase::Staging { plan }, ApplyEvent::Staged(Ok(staged))) => {
            &&& quiet(pre, before, post, after)
            &&& post.phase == (ApplyPhase::Checking { plan, staged })
            &&& action == (ApplyAction::CheckStaged {
                spec: spec::reading(*pre.request.input, staged),
            })
        },
        (ApplyPhase::Checking { .. }, ApplyEvent::Checked(Err(e))) => ends(
            pre,
            before,
            e,
            post,
            after,
            action,
        ),
        (ApplyPhase::Checking { plan, staged }, ApplyEvent::Checked(Ok(()))) => {
            &&& quiet(pre, before, post, after)
            &&& if in_place(plan.change) {
                &&& post.phase == (ApplyPhase::BackingUp { plan, staged })
                &&& action == (ApplyAction::Backup {
                    epoch: previous.revision.epoch,
                    generation: (previous.revision.generation + 1) as u64,
                })
            } else {
                &&& post.phase == (ApplyPhase::Stopping { plan })
                &&& action is Stop
            }
        },
        (ApplyPhase::BackingUp { .. }, ApplyEvent::BackedUp(Err(e))) => ends(
            pre,
            before,
            e,
            post,
            after,
            action,
        ),
        (ApplyPhase::BackingUp { plan, staged }, ApplyEvent::BackedUp(Ok(backup))) => {
            &&& quiet(pre, before, post, after)
            &&& post.phase == (ApplyPhase::Replacing { plan, backup })
            &&& action == (ApplyAction::Replace { epoch: previous.revision.epoch, staged })
        },
        (ApplyPhase::Replacing { plan, backup }, ApplyEvent::Replaced(Err(e))) => {
            &&& quiet(pre, before, post, after)
            &&& post.phase == (ApplyPhase::Discarding { error: e })
            &&& action is RemoveBackup
        },
        (ApplyPhase::Discarding { error }, ApplyEvent::BackupRemoved(_)) => ends(
            pre,
            before,
            error,
            post,
            after,
            action,
        ),
        (ApplyPhase::Replacing { plan, backup }, ApplyEvent::Replaced(Ok(commit))) => {
            &&& after == before
            &&& warned(pre.warnings@, commit, post.warnings@)
            &&& post.phase == (ApplyPhase::Reconciling { plan, backup })
            &&& action == (ApplyAction::Reconcile {
                kind: reconcile::change_kind(plan.change),
                runtime_path: previous.revision.runtime_path,
            })
        },
        _ => quiet(pre, before, post, after) && post.phase == pre.phase && action is Ignore,
    }
}

pub open spec fn restore_words(e: Error) -> Seq<char> {
    "runtime restore failed: "@ + error::error_text(e)
}

/// The outcome of a start, or why there is none.
pub open spec fn started_outcome(
    revision: Option<ConfigRevision>,
    switched: bool,
    warnings: Seq<String>,
    r: Result<ApplyOutcome, Error>,
) -> bool {
    match revision {
        None => r matches Err(Error::ApplyFailed(m)) && m@ == "started epoch has no revision"@,
        Some(revision) => r == Ok::<ApplyOutcome, Error>(
            wrapped(
                if switched {
                    ApplyOutcome::Switched { revision }
                } else {
                    ApplyOutcome::Restarted { revision }
                },
                warnings,
            ),
        ),
    }
}

/// The outcome of a rollback, or why there is none.
pub open spec fn rolled_back(
    revision: Option<ConfigRevision>,
    apply: Error,
    result: Result<(), Error>,
    warnings: Seq<String>,
    r: Result<ApplyOutcome, Error>,
) -> bool {
    match (result, revision) {
        (Err(e), _) => r matches Err(Error::ApplyRollbackFailed { apply: a, rollback: b }) && a@
            == error::error_text(apply) && b@ == error::error_text(e),
        (Ok(()), None) => r matches Err(Error::ApplyRollbackFailed { apply: a, rollback: b }) && a@
            == error::error_text(apply) && b@ == "rollback epoch has no revision"@,
        (Ok(()), Some(revision)) => exists|failed_apply: String|
            failed_apply@ == error::error_text(apply) && r == Ok::<ApplyOutcome, Error>(
                #[trigger] wrapped(
                    ApplyOutcome::RolledBack { revision, failed_apply },
                    warnings,
                ),
            ),
    }
}

/// How applying goes on once the file of the running core was replaced, or the core
/// is to be started anew.
pub open spec fn finish_step(
    pre: ApplyFlow,
    before: ManagerState,
    event: ApplyEvent,
    post: ApplyFlow,
    after: ManagerState,
    action: ApplyAction,
) -> bool {
    let previous = pre.previous->0;
    match (pre.phase, event) {
        (ApplyPhase::Reconciling { plan, backup }, ApplyEvent::Reconciled(true)) => {
            let revision = next_revision(previous.revision, plan.candidate);
            &&& post.warnings@ == pre.warnings@
            &&& taken_over(before, pre.request.input, plan, revision, after)
            &&& if before.ctrl.current is None {
                post.phase is Finished && (action matches ApplyAction::Done(Err(e)) && e
                    is NotStarted)
            } else {
                &&& post.phase == (ApplyPhase::Committed {
                    outcome: in_place_outcome(plan.change, revision),
                })
                &&& action is RemoveBackup
            }
        },
        (ApplyPhase::Committed { outcome }, ApplyEvent::BackupRemoved(_)) => {
            &&& after == before
            &&& post.phase is Finished
            &&& action == ApplyAction::Done(Ok(wrapped(outcome, pre.warnings@)))
        },
        (ApplyPhase::Reconciling { plan, backup }, ApplyEvent::Reconciled(false)) => {
            &&& after == before
            &&& match pre.request.fallback {
                Fallback::NewEpoch => {
                    &&& post.warnings@ == pre.warnings@
                    &&& post.phase == (ApplyPhase::Restoring { plan })
                    &&& action is Restore
                },
                Fallback::SameEpoch => {
                    &&& post.phase is Finished
                    &&& action matches ApplyAction::Compensate(request) && request.store
                        == pre.request.store && request.input == pre.request.input && request.plan
                        == plan && request.backup == backup && request.warnings@ == pre.warnings@
                },
            }
        },
        (ApplyPhase::Restoring { plan }, ApplyEvent::Restored(Err(e))) => {
            &&& after == before
            &&& post.phase is Finished
            &&& action matches ApplyAction::Done(
                Err(Error::ApplyRollbackFailed { apply, rollback }),
            ) && apply@ == "in-place reconciliation failed"@ && rollback@ == restore_words(e)
        },
        (ApplyPhase::Restoring { plan }, ApplyEvent::Restored(Ok(commit))) => {
            &&& after == before
            &&& warned(pre.warnings@, commit, post.warnings@)
            &&& post.phase == (ApplyPhase::Restored { plan })
            &&& action is RemoveBackup
        },
        (ApplyPhase::Restored { plan }, ApplyEvent::BackupRemoved(_)) => {
            &&& quiet(pre, before, post, after)
            &&& post.phase == (ApplyPhase::Stopping { plan })
            &&& action is Stop
        },
        (ApplyPhase::Stopping { plan }, ApplyEvent::Stopped(Err(e))) => ends(
            pre,
            before,
            e,
            post,
            after,
            action,
        ),
        (ApplyPhase::Stopping { plan }, ApplyEvent::Stopped(Ok(()))) => {
            &&& quiet(pre, before, post, after)
            &&& post.phase == (ApplyPhase::Starting { plan })
            &&& action == (ApplyAction::Start { spec: pre.request.input, snapshot: plan.snapshot })
        },
        (ApplyPhase::Starting { plan }, ApplyEvent::Started(Ok(()))) => {
            &&& after == before
            &&& post.phase is Finished
            &&& action matches ApplyAction::Done(r) && started_outcome(
                before.status.revision,
                plan.change is Switch,
                pre.warnings@,
                r,
            )
        },
        (ApplyPhase::Starting { plan }, ApplyEvent::Started(Err(e))) => {
            &&& quiet(pre, before, post, after)
            &&& post.phase == (ApplyPhase::RollingBack { apply: e })
            &&& action == (ApplyAction::Start {
                spec: previous.source_spec,
                snapshot: plan.previous_snapshot,
            })
        },
        (ApplyPhase::RollingBack { apply }, ApplyEvent::Started(result)) => {
            &&& after == before
            &&& post.phase is Finished
            &&& action matches ApplyAction::Done(r) && rolled_back(
                before.status.revision,
                apply,
                result,
                pre.warnings@,
                r,
            )
        },
        _ => quiet(pre, before, post, after) && post.phase == pre.phase && action is Ignore,
    }
}

/// Nothing that runs was touched yet.
pub open spec fn preparing(phase: ApplyPhase) -> bool {
    phase is Loading || phase is Converting || phase is Staging || phase is Checking || phase
        is BackingUp || phase is Replacing || phase is Discarding
}

/// How applying goes on.
pub open spec fn apply_step(
    pre: ApplyFlow,
    before: ManagerState,
    event: ApplyEvent,
    post: ApplyFlow,
    after: ManagerState,
    action: ApplyAction,
) -> bool {
    &&& action is Compensate || post.request == pre.request
    &&& action is Compensate || post.previous == pre.previous
    &&& if preparing(pre.phase) {
        prepare_step(pre, before, event, post, after, action)
    } else {
        finish_step(pre, before, event, post, after, action)
    }
}

/// Keeps the warning of a commit, where it gave one.
pub(crate) fn push_warning(warnings: &mut Vec<String>, commit: &RuntimeConfigCommit)
    ensures
        warned(old(warnings)@, *commit, final(warnings)@),
{
    let ghost before = warnings@;
    if let Some(warning) = commit.durability_warning() {
        warnings.push(warning.to_owned());
        assert(warnings@.drop_last() =~= before);
    }
}

impl ApplyFlow {
    /// A flow that is not over knows what ran, and there is a next generation.
    pub open spec fn wf(&self) -> bool {
        self.phase is Finished || (self.previous matches Some(a) && a.revision.generation
            < u64::MAX)
    }

    pub fn begin(
        state: &ManagerState,
        request: ApplyRequest,
        expected: Option<RevisionId>,
        terminal: bool,
    ) -> (r: (ApplyFlow, ApplyAction))
        requires
            state.ctrl.current matches Some(a) ==> a.revision.generation < u64::MAX,
        ensures
            r.0.request == request,
            r.0.wf(),
            apply_begun(*state, terminal, expected, r.0, r.1),
    {
        let refused = match ctrl::reject_quarantine(&state.ctrl) {
            Err(e) => Some(e),
            Ok(()) => match &state.ctrl.current {
                None => Some(Error::NotStarted),
                Some(active) => if terminal {
                    Some(Error::NotStarted)
                } else {
                    let actual = active.revision.id();
                    match expected {
                        Some(expected) => if !expected.same(&actual) {
                            Some(Error::RevisionConflict { expected, actual: Some(actual) })
                        } else {
                            None
                        },
                        None => None,
                    }
                },
            },
        };
        let previous = match &state.ctrl.current {
            Some(active) => Some(active.copy()),
            None => None,
        };
        let warnings: Vec<String> = Vec::new();
        match (refused, previous) {
            (Some(e), previous) => {
                let flow = ApplyFlow { request, previous, warnings, phase: ApplyPhase::Finished };
                (flow, ApplyAction::Done(Err(e)))
            },
            (None, Some(active)) => {
                let epoch = active.revision.epoch;
                let flow = ApplyFlow {
                    request,
                    previous: Some(active),
                    warnings,
                    phase: ApplyPhase::Loading,
                };
                (flow, ApplyAction::Load { epoch })
            },
            (None, None) => {
                let flow = ApplyFlow {
                    request,
                    previous: None,
                    warnings,
                    phase: ApplyPhase::Finished,
                };
                (flow, ApplyAction::Done(Err(Error::NotStarted)))
            },
        }
    }

    fn load(&mut self, state: &ManagerState, previous: &Active, loaded: LoadedConfig) -> (r:
        ApplyAction)
        requires
            old(self).phase is Finished,
            old(self).previous == Some(*previous),
        ensures
            final(self).request == old(self).request,
            final(self).previous == old(self).previous,
            !(r is Compensate),
            prepare_step(
                (ApplyFlow { phase: ApplyPhase::Loading, ..*old(self) }),
                *state,
                ApplyEvent::Loaded(Ok(loaded)),
                *final(self),
                *state,
                r,
            ),
    {
        match plan_apply(previous, &self.request.input, self.request.platform, loaded) {
            Err(e) => ApplyAction::Done(Err(e)),
            Ok(None) => ApplyAction::Done(
                Ok(ApplyOutcome::Noop { revision: previous.revision.copy() }),
            ),
            Ok(Some(plan)) => {
                let told = match &plan.change {
                    ConfigChange::Patch { document } => Some(copy_entries(document)),
                    _ => None,
                };
                match told {
                    Some(document) => {
                        self.phase = ApplyPhase::Converting { plan };
                        ApplyAction::Convert { document }
                    },
                    None => {
                        let bytes = copy_bytes(&plan.candidate.bytes);
                        self.phase = ApplyPhase::Staging { plan };
                        ApplyAction::Stage { epoch: previous.revision.epoch, bytes }
                    },
                }
            },
        }
    }

    fn prepare(
        &mut self,
        state: &ManagerState,
        phase: ApplyPhase,
        previous: &Active,
        event: ApplyEvent,
    ) -> (r: ApplyAction)
        requires
            preparing(phase),
            old(self).phase is Finished,
            old(self).previous == Some(*previous),
            previous.revision.generation < u64::MAX,
        ensures
            final(self).request == old(self).request,
            final(self).previous == old(self).previous,
            !(r is Compensate),
            prepare_step(
                (ApplyFlow { phase, ..*old(self) }),
                *state,
                event,
                *final(self),
                *state,
                r,
            ),
    {
        let epoch = previous.revision.epoch;
        match (phase, event) {
            (ApplyPhase::Loading, ApplyEvent::Loaded(Err(e))) => ApplyAction::Done(Err(e)),
            (ApplyPhase::Loading, ApplyEvent::Loaded(Ok(loaded))) => {
                self.load(state, previous, loaded)
            },
            (ApplyPhase::Converting { .. }, ApplyEvent::Converted(Err(e))) => ApplyAction::Done(
                Err(e),
            ),
            (ApplyPhase::Converting { plan }, ApplyEvent::Converted(Ok(()))) => {
                let bytes = copy_bytes(&plan.candidate.bytes);
                self.phase = ApplyPhase::Staging { plan };
                ApplyAction::Stage { epoch, bytes }
            },
            (ApplyPhase::Staging { .. }, ApplyEvent::Staged(Err(e))) => ApplyAction::Done(Err(e)),
            (ApplyPhase::Staging { plan }, ApplyEvent::Staged(Ok(staged))) => {
                let spec = self.request.input.with_config(&staged);
                self.phase = ApplyPhase::Checking { plan, staged };
                ApplyAction::CheckStaged { spec }
            },
            (ApplyPhase::Checking { .. }, ApplyEvent::Checked(Err(e))) => ApplyAction::Done(Err(e)),
            (ApplyPhase::Checking { plan, staged }, ApplyEvent::Checked(Ok(()))) => {
                let stays = matches!(
                    &plan.change,
                    ConfigChange::Patch { .. } | ConfigChange::Reload
                );
                if stays {
                    self.phase = ApplyPhase::BackingUp { plan, staged };
                    ApplyAction::Backup { epoch, generation: previous.revision.generation + 1 }
                } else {
                    self.phase = ApplyPhase::Stopping { plan };
                    ApplyAction::Stop
                }
            },
            (ApplyPhase::BackingUp { .. }, ApplyEvent::BackedUp(Err(e))) => ApplyAction::Done(
                Err(e),
            ),
            (ApplyPhase::BackingUp { plan, staged }, ApplyEvent::BackedUp(Ok(backup))) => {
                self.phase = ApplyPhase::Replacing { plan, backup };
                ApplyAction::Replace { epoch, staged }
            },
            (ApplyPhase::Replacing { .. }, ApplyEvent::Replaced(Err(error))) => {
                self.phase = ApplyPhase::Discarding { error };
                ApplyAction::RemoveBackup
            },
            (ApplyPhase::Discarding { error }, ApplyEvent::BackupRemoved(_)) => ApplyAction::Done(
                Err(error),
            ),
            (ApplyPhase::Replacing { plan, backup }, ApplyEvent::Replaced(Ok(commit))) => {
                push_warning(&mut self.warnings, &commit);
                let kind = kind_of(&plan.change);
                self.phase = ApplyPhase::Reconciling { plan, backup };
                ApplyAction::Reconcile {
                    kind,
                    runtime_path: previous.revision.runtime_path.clone(),
                }
            },
            (phase, _) => {
                self.phase = phase;
                ApplyAction::Ignore
            },
        }
    }
}

/// The running epoch takes over a configuration.
fn take_over(
    state: &mut ManagerState,
    input: &Arc<InstanceSpec>,
    plan: &ApplyPlan,
    revision: &ConfigRevision,
) -> (r: bool)
    ensures
        taken_over(*old(state), *input, *plan, *revision, *final(state)),
        r == old(state).ctrl.current is Some,
{
    let mut current: Option<Active> = None;
    core::mem::swap(&mut state.ctrl.current, &mut current);
    match current {
        None => false,
        Some(active) => {
            let now = Active {
                source_spec: input.clone(),
                source_document: plan.snapshot.document().clone(),
                effective_document: plan.candidate.document.clone(),
                revision: revision.copy(),
                ..active
            };
            state.ctrl.current = Some(now);
            state.ctrl.last_spec = Some(input.clone());
            state.status.revision = Some(revision.copy());
            let mut summary: Option<SpecSummary> = None;
            core::mem::swap(&mut state.status.spec, &mut summary);
            if let Some(summary) = summary {
                state.status.spec = Some(
                    SpecSummary { config_path: input.config_path.clone(), ..summary },
                );
            }
            true
        },
    }
}

fn copy_revision(revision: &Option<ConfigRevision>) -> (r: Option<ConfigRevision>)
    ensures
        r == *revision,
{
    match revision {
        Some(revision) => Some(revision.copy()),
        None => None,
    }
}

fn started_result(
    revision: Option<ConfigRevision>,
    switched: bool,
    warnings: &Vec<String>,
) -> (r: Result<ApplyOutcome, Error>)
    ensures
        started_outcome(revision, switched, warnings@, r),
{
    match revision {
        None => Err(Error::ApplyFailed("started epoch has no revision".to_owned())),
        Some(revision) => {
            let outcome = if switched {
                ApplyOutcome::Switched { revision }
            } else {
                ApplyOutcome::Restarted { revision }
            };
            Ok(wrap_apply_warnings(outcome, warnings))
        },
    }
}

fn rollback_result(
    revision: Option<ConfigRevision>,
    apply: &Error,
    result: Result<(), Error>,
    warnings: &Vec<String>,
) -> (r: Result<ApplyOutcome, Error>)
    ensures
        rolled_back(revision, *apply, result, warnings@, r),
{
    match (result, revision) {
        (Err(e), _) => Err(
            Error::ApplyRollbackFailed { apply: apply.message(), rollback: e.message() },
        ),
        (Ok(()), None) => Err(
            Error::ApplyRollbackFailed {
                apply: apply.message(),
                rollback: "rollback epoch has no revision".to_owned(),
            },
        ),
        (Ok(()), Some(revision)) => {
            let failed_apply = apply.message();
            let ghost words = failed_apply;
            let ghost back = revision;
            let r = Ok(
                wrap_apply_warnings(
                    ApplyOutcome::RolledBack { revision, failed_apply },
                    warnings,
                ),
            );
            assert(r == Ok::<ApplyOutcome, Error>(
                wrapped(
                    ApplyOutcome::RolledBack { revision: back, failed_apply: words },
                    warnings@,
                ),
            ));
            r
        },
    }
}

fn take_warnings(warnings: &mut Vec<String>) -> (r: Vec<String>)
    ensures
        r@ == old(warnings)@,
{
    let mut out: Vec<String> = Vec::new();
    core::mem::swap(warnings, &mut out);
    out
}

impl ApplyFlow {
    fn finish(
        &mut self,
        state: &mut ManagerState,
        phase: ApplyPhase,
        previous: &Active,
        event: ApplyEvent,
    ) -> (r: ApplyAction)
        requires
            !preparing(phase),
            old(self).phase is Finished,
            old(self).previous == Some(*previous),
            previous.revision.generation < u64::MAX,
        ensures
            r is Compensate || final(self).request == old(self).request,
            final(self).previous == old(self).previous,
            finish_step(
                (ApplyFlow { phase, ..*old(self) }),
                *old(state),
                event,
                *final(self),
                *final(state),
                r,
            ),
    {
        match (phase, event) {
            (ApplyPhase::Reconciling { plan, backup }, ApplyEvent::Reconciled(reconciled)) => {
                if reconciled {
                    let revision = ConfigRevision {
                        epoch: previous.revision.epoch,
                        generation: previous.revision.generation + 1,
                        source_hash: plan.candidate.source_hash.clone(),
                        effective_hash: plan.candidate.effective_hash.clone(),
                        runtime_path: previous.revision.runtime_path.clone(),
                    };
                    if !take_over(state, &self.request.input, &plan, &revision) {
                        return ApplyAction::Done(Err(Error::NotStarted));
                    }
                    let outcome = match &plan.change {
                        ConfigChange::Patch { .. } => ApplyOutcome::Patched { revision },
                        _ => ApplyOutcome::Reloaded { revision },
                    };
                    self.phase = ApplyPhase::Committed { outcome };
                    ApplyAction::RemoveBackup
                } else {
                    match self.request.fallback {
                        Fallback::NewEpoch => {
                            self.phase = ApplyPhase::Restoring { plan };
                            ApplyAction::Restore
                        },
                        Fallback::SameEpoch => {
                            let warnings = take_warnings(&mut self.warnings);
                            ApplyAction::Compensate(
                                CompensateRequest {
                                    store: self.request.store.copy(),
                                    input: self.request.input.clone(),
                                    plan,
                                    backup,
                                    warnings,
                                },
                            )
                        },
                    }
                }
            },
            (ApplyPhase::Committed { outcome }, ApplyEvent::BackupRemoved(_)) => ApplyAction::Done(
                Ok(wrap_apply_warnings(outcome, &self.warnings)),
            ),
            (ApplyPhase::Restoring { .. }, ApplyEvent::Restored(Err(e))) => {
                let mut rollback = "runtime restore failed: ".to_owned();
                rollback.append(e.message().as_str());
                ApplyAction::Done(
                    Err(
                        Error::ApplyRollbackFailed {
                            apply: "in-place reconciliation failed".to_owned(),
                            rollback,
                        },
                    ),
                )
            },
            (ApplyPhase::Restoring { plan }, ApplyEvent::Restored(Ok(commit))) => {
                push_warning(&mut self.warnings, &commit);
                self.phase = ApplyPhase::Restored { plan };
                ApplyAction::RemoveBackup
            },
            (ApplyPhase::Restored { plan }, ApplyEvent::BackupRemoved(_)) => {
                self.phase = ApplyPhase::Stopping { plan };
                ApplyAction::Stop
            },
            (ApplyPhase::Stopping { .. }, ApplyEvent::Stopped(Err(e))) => ApplyAction::Done(Err(e)),
            (ApplyPhase::Stopping { plan }, ApplyEvent::Stopped(Ok(()))) => {
                let snapshot = plan.snapshot.clone();
                self.phase = ApplyPhase::Starting { plan };
                ApplyAction::Start { spec: self.request.input.clone(), snapshot }
            },
            (ApplyPhase::Starting { plan }, ApplyEvent::Started(Ok(()))) => {
                let switched = matches!(&plan.change, ConfigChange::Switch);
                ApplyAction::Done(
                    started_result(copy_revision(&state.status.revision), switched, &self.warnings),
                )
            },
            (ApplyPhase::Starting { plan }, ApplyEvent::Started(Err(apply))) => {
                let snapshot = plan.previous_snapshot.clone();
                self.phase = ApplyPhase::RollingBack { apply };
                ApplyAction::Start { spec: previous.source_spec.clone(), snapshot }
            },
            (ApplyPhase::RollingBack { apply }, ApplyEvent::Started(result)) => ApplyAction::Done(
                rollback_result(
                    copy_revision(&state.status.revision),
                    &apply,
                    result,
                    &self.warnings,
                ),
            ),
            (phase, _) => {
                self.phase = phase;
                ApplyAction::Ignore
            },
        }
    }

    pub fn step(&mut self, state: &mut ManagerState, event: ApplyEvent) -> (r: ApplyAction)
        requires
            old(self).wf(),
        ensures
            final(self).wf(),
            apply_step(*old(self), *old(state), event, *final(self), *final(state), r),
    {
        let mut phase = ApplyPhase::Finished;
        core::mem::swap(&mut self.phase, &mut phase);
        if let ApplyPhase::Finished = phase {
            return ApplyAction::Ignore;
        }
        let early = matches!(
            &phase,
            ApplyPhase::Loading | ApplyPhase::Converting { .. } | ApplyPhase::Staging { .. }
                | ApplyPhase::Checking { .. } | ApplyPhase::BackingUp { .. }
                | ApplyPhase::Replacing { .. } | ApplyPhase::Discarding { .. }
        );
        let previous = match &self.previous {
            Some(previous) => previous.copy(),
            None => return ApplyAction::Ignore,
        };
        if early {
            self.prepare(state, phase, &previous, event)
        } else {
            self.finish(state, phase, &previous, event)
        }
    }
}

// ---------------------------------------------------------------------------
// Laws
// ---------------------------------------------------------------------------

/// A caller that is wrong about what runs changes nothing and is told what runs.
pub proof fn law_stale_expectation_conflicts(
    pre: ManagerState,
    expected: RevisionId,
    flow: ApplyFlow,
    action: ApplyAction,
)
    requires
        apply_begun(pre, false, Some(expected), flow, action),
        pre.ctrl.quarantine@.len() == 0,
        pre.ctrl.current is Some,
        !state::same_id(expected, state::revision_id(pre.ctrl.current->0.revision)),
    ensures
        flow.phase is Finished,
        action matches ApplyAction::Done(
            Err(Error::RevisionConflict { actual: Some(actual), .. }),
        ) && actual == state::revision_id(pre.ctrl.current->0.revision),
{
}

/// Nothing that runs changes before the configuration was accepted and its file
/// installed; a refusal before then leaves the manager as it was.
pub proof fn law_refused_config_changes_nothing(
    pre: ApplyFlow,
    before: ManagerState,
    event: ApplyEvent,
    post: ApplyFlow,
    after: ManagerState,
    action: ApplyAction,
)
    requires
        apply_step(pre, before, event, post, after, action),
        preparing(pre.phase),
    ensures
        after == before,
        action matches ApplyAction::Done(Ok(outcome)) ==> outcome is Noop,
        post.phase is Stopping || post.phase is BackingUp ==> pre.phase is BackingUp || (event
            matches ApplyEvent::Checked(Ok(()))),
{
}

/// A configuration that is taken over in place stays in its epoch: the generation
/// goes up by one, and the process is not touched.
pub proof fn law_in_place_keeps_the_epoch(
    pre: ApplyFlow,
    before: ManagerState,
    post: ApplyFlow,
    after: ManagerState,
    action: ApplyAction,
)
    requires
        apply_step(pre, before, ApplyEvent::Reconciled(true), post, after, action),
        pre.phase is Reconciling,
        pre.previous == before.ctrl.current,
        before.ctrl.current matches Some(a) && a.revision.generation < u64::MAX,
    ensures
        after.ctrl.current matches Some(now) && now.revision.epoch
            == before.ctrl.current->0.revision.epoch && now.revision.generation
            == before.ctrl.current->0.revision.generation + 1 && now.effective_spec
            == before.ctrl.current->0.effective_spec && now.controller
            == before.ctrl.current->0.controller,
        after.status.state == before.status.state,
        after.epoch == before.epoch,
{
}

/// Where a core could not be brought to a configuration, what ran before is started
/// again, from the configuration that it ran.
pub proof fn law_failed_start_rolls_back(
    pre: ApplyFlow,
    before: ManagerState,
    e: Error,
    post: ApplyFlow,
    after: ManagerState,
    action: ApplyAction,
)
    requires
        apply_step(pre, before, ApplyEvent::Started(Err(e)), post, after, action),
        pre.phase is Starting,
        pre.previous is Some,
    ensures
        action matches ApplyAction::Start { spec, snapshot } && spec
            == pre.previous->0.source_spec && snapshot
            == pre.phase->Starting_plan.previous_snapshot,
        post.phase == (ApplyPhase::RollingBack { apply: e }),
{
}

/// The file that is installed is the one that was checked: it is handed to the
/// check under its path, and the same path is installed once the check passed.
pub proof fn law_checked_file_is_the_one_applied(
    pre: ApplyFlow,
    before: ManagerState,
    event: ApplyEvent,
    post: ApplyFlow,
    after: ManagerState,
    action: ApplyAction,
)
    requires
        apply_step(pre, before, event, post, after, action),
    ensures
        action matches ApplyAction::Stage { bytes, .. } ==> (post.phase
            matches ApplyPhase::Staging { plan } && bytes@ == plan.candidate.bytes@),
        action matches ApplyAction::CheckStaged { spec } ==> (pre.phase
            matches ApplyPhase::Staging { plan } && post.phase == (ApplyPhase::Checking {
            plan,
            staged: spec.config_path,
        })),
        post.phase matches ApplyPhase::BackingUp { plan, staged } ==> post.phase == pre.phase || (
        pre.phase == (ApplyPhase::Checking { plan, staged }) && (event matches ApplyEvent::Checked(
            Ok(()),
        ))),
        action matches ApplyAction::Replace { staged, .. } ==> (pre.phase
            matches ApplyPhase::BackingUp { staged: s, .. } && s == staged),
{
}

/// Once a configuration was taken over in place, it is what runs: the documents of the
/// core, its specification and its revision are those of the configuration, and the
/// manager says so.
pub proof fn law_what_was_taken_over_runs(
    pre: ApplyFlow,
    before: ManagerState,
    post: ApplyFlow,
    after: ManagerState,
    action: ApplyAction,
    plan: ApplyPlan,
    backup: RuntimeConfigBackup,
)
    requires
        apply_step(pre, before, ApplyEvent::Reconciled(true), post, after, action),
        pre.phase == (ApplyPhase::Reconciling { plan, backup }),
        pre.previous is Some,
        before.ctrl.current is Some,
    ensures
        after.ctrl.current is Some,
        value::entries(after.ctrl.current->0.effective_document@) == value::entries(
            plan.candidate.document@,
        ),
        value::entries(after.ctrl.current->0.source_document@) == plan.snapshot.table(),
        after.ctrl.current->0.source_spec == pre.request.input,
        after.ctrl.current->0.revision.source_hash@ == plan.candidate.source_hash@,
        after.ctrl.current->0.revision.effective_hash@ == plan.candidate.effective_hash@,
        after.ctrl.current->0.revision.runtime_path@ == pre.previous->0.revision.runtime_path@,
        after.ctrl.last_spec == Some(pre.request.input),
        after.status.revision == Some(after.ctrl.current->0.revision),
        after.status.spec is Some <==> before.status.spec is Some,
        after.status.spec matches Some(s) ==> s.config_path == pre.request.input.config_path,
        after.status.health == before.status.health,
        after.status.changed_at == before.status.changed_at,
        after.ctrl.quarantine == before.ctrl.quarantine,
        post.phase matches ApplyPhase::Committed { outcome } && (match plan.change {
            ConfigChange::Patch { .. } => outcome == (ApplyOutcome::Patched {
                revision: after.ctrl.current->0.revision,
            }),
            _ => outcome == (ApplyOutcome::Reloaded { revision: after.ctrl.current->0.revision }),
        }),
        action is RemoveBackup,
{
}

/// Applying what was just taken over is a no-op, and applying anything else is not:
/// the next configuration is compared with the one that was taken over last.
pub proof fn law_the_next_change_starts_from_what_was_taken_over(
    pre: ApplyFlow,
    before: ManagerState,
    post: ApplyFlow,
    after: ManagerState,
    action: ApplyAction,
    plan: ApplyPlan,
    backup: RuntimeConfigBackup,
    next: ConfigSnapshot,
    candidate: PreparedConfig,
    r: Result<ConfigChange, Error>,
)
    requires
        apply_step(pre, before, ApplyEvent::Reconciled(true), post, after, action),
        pre.phase == (ApplyPhase::Reconciling { plan, backup }),
        pre.previous is Some,
        before.ctrl.current is Some,
        value::is_canonical(value::Node::Table(plan.snapshot.table())),
        value::is_canonical(value::Node::Table(next.table())),
        value::is_canonical(value::Node::Table(value::entries(plan.candidate.document@))),
        value::is_canonical(value::Node::Table(value::entries(candidate.document@))),
        changes(after.ctrl.current->0, *pre.request.input, next, candidate, r),
    ensures
        value::alike(
            value::Node::Table(plan.snapshot.table()),
            value::Node::Table(next.table()),
        ) && value::alike(
            value::Node::Table(value::entries(plan.candidate.document@)),
            value::Node::Table(value::entries(candidate.document@)),
        ) ==> (r matches Ok(c) && c is Noop),
        !value::alike(
            value::Node::Table(value::entries(plan.candidate.document@)),
            value::Node::Table(value::entries(candidate.document@)),
        ) ==> !(r matches Ok(ConfigChange::Noop)),
{
    let now = after.ctrl.current->0;
    mihomo::law_same_launches_follow_their_documents(
        value::entries(now.source_document@),
        value::entries(now.effective_document@),
        &*now.source_spec,
        next.table(),
        value::entries(candidate.document@),
        &*pre.request.input,
        r,
    );
}

/// A configuration is a no-op only where it does not differ from what runs, and then
/// nothing is done and the running revision is told. Otherwise its change goes on: what
/// the core is to be told is read first, and the file that is staged is the candidate.
pub proof fn law_loading_goes_by_what_differs(
    pre: ApplyFlow,
    before: ManagerState,
    loaded: LoadedConfig,
    post: ApplyFlow,
    after: ManagerState,
    action: ApplyAction,
)
    requires
        apply_step(pre, before, ApplyEvent::Loaded(Ok(loaded)), post, after, action),
        pre.phase is Loading,
        pre.previous is Some,
        value::is_canonical(
            value::Node::Table(value::entries(pre.previous->0.source_document@)),
        ),
        value::is_canonical(
            value::Node::Table(value::entries(pre.previous->0.effective_document@)),
        ),
        value::is_canonical(value::Node::Table(loaded.snapshot.table())),
    ensures
        after == before,
        action matches ApplyAction::Done(Ok(outcome)) ==> outcome == (ApplyOutcome::Noop {
            revision: pre.previous->0.revision,
        }) && exists|candidate: PreparedConfig|
            start::prepares(
                *loaded.snapshot,
                pre.request.platform,
                loaded.endpoint,
                #[trigger] prepared_as(candidate),
            ) && value::alike(
                value::Node::Table(value::entries(pre.previous->0.effective_document@)),
                value::Node::Table(value::entries(candidate.document@)),
            ),
        post.phase matches ApplyPhase::Converting { plan } ==> start::prepares(
            *loaded.snapshot,
            pre.request.platform,
            loaded.endpoint,
            Ok(plan.candidate),
        ) && plan.snapshot == loaded.snapshot && plan.features == loaded.features && (plan.change
            matches ConfigChange::Patch { document } && (action matches ApplyAction::Convert {
            document: d,
        } && value::entries(d@) == value::entries(document@))),
        post.phase matches ApplyPhase::Staging { plan } ==> start::prepares(
            *loaded.snapshot,
            pre.request.platform,
            loaded.endpoint,
            Ok(plan.candidate),
        ) && plan.snapshot == loaded.snapshot && plan.features == loaded.features && !(plan.change
            is Patch) && !(plan.change is Noop) && (action matches ApplyAction::Stage {
            epoch,
            bytes,
        } && epoch == pre.previous->0.revision.epoch && bytes@ == plan.candidate.bytes@),
        post.phase is Converting || post.phase is Staging || post.phase is Finished,
        post.phase is Finished <==> action is Done,
{
    if let ApplyAction::Done(Ok(outcome)) = action {
        let candidate = choose|candidate: PreparedConfig|
            #[trigger] nothing_to_do(
                pre.previous->0,
                *pre.request.input,
                pre.request.platform,
                loaded,
                candidate,
            );
        assert(start::prepares(
            *loaded.snapshot,
            pre.request.platform,
            loaded.endpoint,
            prepared_as(candidate),
        ));
        start::lemma_prepared_is_canonical(
            &*loaded.snapshot,
            pre.request.platform,
            loaded.endpoint,
            candidate,
        );
        mihomo::law_same_launches_follow_their_documents(
            value::entries(pre.previous->0.source_document@),
            value::entries(pre.previous->0.effective_document@),
            &*pre.previous->0.source_spec,
            loaded.snapshot.table(),
            value::entries(candidate.document@),
            &*pre.request.input,
            Ok(ConfigChange::Noop),
        );
    }
}

pub open spec fn prepared_as(candidate: PreparedConfig) -> Result<PreparedConfig, Error> {
    Ok(candidate)
}

/// A core that did not take over its configuration goes back to the one that it ran:
/// either the file is restored first, or the core is restarted in its own epoch with
/// what it takes to go back. Nothing that the manager tells changes before then.
pub proof fn law_unreconciled_changes_are_taken_back(
    pre: ApplyFlow,
    before: ManagerState,
    post: ApplyFlow,
    after: ManagerState,
    action: ApplyAction,
    plan: ApplyPlan,
    backup: RuntimeConfigBackup,
)
    requires
        apply_step(pre, before, ApplyEvent::Reconciled(false), post, after, action),
        pre.phase == (ApplyPhase::Reconciling { plan, backup }),
        pre.previous is Some,
    ensures
        after == before,
        pre.request.fallback is NewEpoch ==> action is Restore && post.phase == (
        ApplyPhase::Restoring { plan }) && post.warnings@ == pre.warnings@,
        pre.request.fallback is SameEpoch ==> (action matches ApplyAction::Compensate(request)
            && request.plan == plan && request.backup == backup && request.input
            == pre.request.input && request.store == pre.request.store && request.warnings@
            == pre.warnings@),
{
}

/// A change that takes a new core stops the old one only after the new configuration
/// was checked, then starts the new one; what ran is started again where that fails.
/// What comes of it tells the revision that runs in the end.
pub proof fn law_new_cores_are_started_after_the_old_one(
    pre: ApplyFlow,
    before: ManagerState,
    event: ApplyEvent,
    post: ApplyFlow,
    after: ManagerState,
    action: ApplyAction,
)
    requires
        apply_step(pre, before, event, post, after, action),
        pre.previous is Some,
    ensures
        action is Stop ==> (pre.phase is Checking && (event matches ApplyEvent::Checked(Ok(())))
            && (pre.phase->Checking_plan.change is Switch || pre.phase->Checking_plan.change
            is Noop)) || pre.phase is Restored,
        pre.phase is Checking && (event matches ApplyEvent::Checked(Ok(()))) ==> if
            pre.phase->Checking_plan.change is Patch || pre.phase->Checking_plan.change is Reload {
            action == (ApplyAction::Backup {
                epoch: pre.previous->0.revision.epoch,
                generation: (pre.previous->0.revision.generation + 1) as u64,
            })
        } else {
            action is Stop
        },
        pre.phase is Stopping && (event matches ApplyEvent::Stopped(Ok(()))) ==> action == (
        ApplyAction::Start {
            spec: pre.request.input,
            snapshot: pre.phase->Stopping_plan.snapshot,
        }),
        action is Start ==> pre.phase is Stopping || pre.phase is Starting,
        pre.phase is Starting && (event matches ApplyEvent::Started(Ok(()))) ==> (
        before.status.revision matches Some(revision) ==> (action matches ApplyAction::Done(Ok(o))
            && (!(o is DurabilityUncertain) ==> pre.warnings@.len() == 0 && o == (if
            pre.phase->Starting_plan.change is Switch {
            ApplyOutcome::Switched { revision }
        } else {
            ApplyOutcome::Restarted { revision }
        })))),
        pre.phase is RollingBack && (event matches ApplyEvent::Started(Ok(()))) ==> (
        before.status.revision matches Some(revision) ==> (action matches ApplyAction::Done(Ok(o))
            && (!(o is DurabilityUncertain) ==> (o matches ApplyOutcome::RolledBack {
            revision: rev,
            failed_apply,
        } && rev == revision && failed_apply@ == error::error_text(
            pre.phase->RollingBack_apply,
        ))))),
        pre.phase is RollingBack && (event matches ApplyEvent::Started(Err(_))) ==> (action
            matches ApplyAction::Done(Err(e)) && e is ApplyRollbackFailed),
{
    reveal_with_fuel(wrapped, 2);
}

/// Applying begins with what runs, where something does that has not ended, and where the
/// caller expects just that or expects nothing.
pub proof fn law_applying_begins_with_what_runs(
    before: ManagerState,
    terminal: bool,
    expected: Option<RevisionId>,
    flow: ApplyFlow,
    action: ApplyAction,
)
    requires
        apply_begun(before, terminal, expected, flow, action),
        before.ctrl.quarantine@.len() == 0,
    ensures
        action is Load <==> before.ctrl.current is Some && !terminal && (expected matches Some(e)
            ==> e.epoch == before.ctrl.current->0.revision.epoch && e.generation
            == before.ctrl.current->0.revision.generation && e.effective_hash@
            == before.ctrl.current->0.revision.effective_hash@),
        action matches ApplyAction::Load { epoch } ==> epoch
            == before.ctrl.current->0.revision.epoch && flow.previous == before.ctrl.current
            && flow.phase is Loading && flow.warnings@.len() == 0,
        !(action is Load) ==> flow.phase is Finished && (action matches ApplyAction::Done(Err(_))),
        before.ctrl.current is None || terminal ==> (action matches ApplyAction::Done(Err(e)) && e
            is NotStarted),
{
}

/// Once the file was installed the core is told of it, as its change asks for; once it was
/// restored the copy is removed, and then the core stopped. Whatever is said of a file
/// that may not outlive a crash is kept, behind what was said before.
pub proof fn law_installed_files_are_used(
    pre: ApplyFlow,
    before: ManagerState,
    commit: RuntimeConfigCommit,
    event: ApplyEvent,
    post: ApplyFlow,
    after: ManagerState,
    action: ApplyAction,
)
    requires
        apply_step(pre, before, event, post, after, action),
        pre.previous is Some,
        (pre.phase is Replacing && event == ApplyEvent::Replaced(Ok(commit))) || (pre.phase
            is Restoring && event == ApplyEvent::Restored(Ok(commit))),
    ensures
        after == before,
        pre.phase matches ApplyPhase::Replacing { plan, backup } ==> post.phase == (
        ApplyPhase::Reconciling { plan, backup }) && (action matches ApplyAction::Reconcile {
            kind,
            runtime_path,
        } && runtime_path == pre.previous->0.revision.runtime_path && kind
            == reconcile::change_kind(plan.change)),
        pre.phase matches ApplyPhase::Restoring { plan } ==> post.phase == (ApplyPhase::Restored {
            plan,
        }) && action is RemoveBackup,
        commit.warning() is None ==> post.warnings@ == pre.warnings@,
        commit.warning() matches Some(w) ==> post.warnings@.len() == pre.warnings@.len() + 1
            && post.warnings@.drop_last() == pre.warnings@ && post.warnings@.last()@ == w,
{
}

/// A step that fails before anything that runs was touched ends applying with that error,
/// after the copy was removed where one was made.
pub proof fn law_failed_preparations_are_told(
    pre: ApplyFlow,
    before: ManagerState,
    event: ApplyEvent,
    post: ApplyFlow,
    after: ManagerState,
    action: ApplyAction,
    e: Error,
)
    requires
        apply_step(pre, before, event, post, after, action),
        pre.previous is Some,
    ensures
        (pre.phase is Loading && event == ApplyEvent::Loaded(Err(e))) || (pre.phase is Staging
            && event == ApplyEvent::Staged(Err(e))) || (pre.phase is BackingUp && event
            == ApplyEvent::BackedUp(Err(e))) ==> action == ApplyAction::Done(Err(e)) && post.phase
            is Finished,
        pre.phase is Converting ==> (event matches ApplyEvent::Converted(Err(x)) ==> action
            == ApplyAction::Done(Err(x)) && post.phase is Finished),
        pre.phase is Checking ==> (event matches ApplyEvent::Checked(Err(x)) ==> action
            == ApplyAction::Done(Err(x)) && post.phase is Finished),
        pre.phase is Stopping ==> (event matches ApplyEvent::Stopped(Err(x)) ==> action
            == ApplyAction::Done(Err(x)) && post.phase is Finished),
        pre.phase is Replacing && event == ApplyEvent::Replaced(Err(e)) ==> action is RemoveBackup
            && post.phase == (ApplyPhase::Discarding { error: e }),
        pre.phase == (ApplyPhase::Discarding { error: e }) && event is BackupRemoved ==> action
            == ApplyAction::Done(Err(e)),
        pre.phase is Restoring && event == ApplyEvent::Restored(Err(e)) ==> (
        action matches ApplyAction::Done(Err(x)) && x is ApplyRollbackFailed),
        pre.phase is Restored && event is BackupRemoved ==> action is Stop,
{
}

/// A change that is made in place goes on step by step: the file is staged for the running
/// epoch, checked, the running one copied under the next generation, and the staged one
/// installed in its place.
pub proof fn law_in_place_changes_go_step_by_step(
    pre: ApplyFlow,
    before: ManagerState,
    event: ApplyEvent,
    post: ApplyFlow,
    after: ManagerState,
    action: ApplyAction,
)
    requires
        apply_step(pre, before, event, post, after, action),
        pre.previous is Some,
    ensures
        pre.phase matches ApplyPhase::Converting { plan } ==> ((event
            matches ApplyEvent::Converted(Ok(()))) ==> (action matches ApplyAction::Stage {
            epoch,
            bytes,
        } && epoch == pre.previous->0.revision.epoch && bytes@ == plan.candidate.bytes@)),
        pre.phase matches ApplyPhase::Staging { plan } ==> (event matches ApplyEvent::Staged(
            Ok(staged),
        ) ==> (action matches ApplyAction::CheckStaged { spec } && spec.config_path == staged
            && spec.core == pre.request.input.core && spec.working_dir
            == pre.request.input.working_dir)),
        pre.phase matches ApplyPhase::BackingUp { plan, staged } ==> (event
            matches ApplyEvent::BackedUp(Ok(backup)) ==> post.phase == (ApplyPhase::Replacing {
            plan,
            backup,
        }) && action == (ApplyAction::Replace {
            epoch: pre.previous->0.revision.epoch,
            staged,
        })),
        pre.phase matches ApplyPhase::Committed { outcome } ==> (event is BackupRemoved ==> (
        action matches ApplyAction::Done(Ok(o)) && unwrapped(o) == unwrapped(outcome))),
{
    if let ApplyPhase::Committed { outcome } = pre.phase {
        lemma_wrapping_keeps(outcome, pre.warnings@);
    }
}

proof fn lemma_wrapping_keeps(outcome: ApplyOutcome, warnings: Seq<String>)
    ensures
        unwrapped(wrapped(outcome, warnings)) == unwrapped(outcome),
    decreases warnings.len(),
{
    if warnings.len() > 0 {
        lemma_wrapping_keeps(outcome, warnings.drop_first());
    }
}

/// The warnings that an outcome carries, the outermost first.
pub open spec fn carried_warnings(outcome: ApplyOutcome) -> Seq<String>
    decreases outcome,
{
    match outcome {
        ApplyOutcome::DurabilityUncertain { outcome, warning } => seq![warning]
            + carried_warnings(*outcome),
        _ => seq![],
    }
}

/// Every warning is told with the outcome, in order.
pub proof fn law_every_warning_is_told(outcome: ApplyOutcome, warnings: Seq<String>)
    requires
        !(outcome is DurabilityUncertain),
    ensures
        carried_warnings(wrapped(outcome, warnings)) == warnings,
    decreases warnings.len(),
{
    if warnings.len() > 0 {
        let rest = warnings.drop_first();
        law_every_warning_is_told(outcome, rest);
        assert(seq![warnings[0]] + rest =~= warnings);
    } else {
        assert(warnings =~= seq![]);
    }
}

} // verus!
