use std::sync::Arc;

use nyanpasu_core::capability::{resolve_features, ResolvedFeatures};
use nyanpasu_core::clash_api::config::{ConfigPatch, RuntimeConfig, RuntimeProjection};
use nyanpasu_core::clash_api::error::Error as ApiError;
use nyanpasu_core::config::mihomo::ConfigChange;
use nyanpasu_core::config::runtime_store::{
    artifact_epochs, installed_commit, remove_socket_artifact, RuntimeConfigBackup,
    RuntimeConfigCommit, RuntimeConfigStore, SocketMetadata,
};
use nyanpasu_core::config::snapshot::ConfigSnapshot;
use nyanpasu_core::error::Error;
use nyanpasu_core::health::probe::{ProbeHandle, ProbeResult};
use nyanpasu_core::instance::OrphanReapOutcome;
use nyanpasu_core::io::error::{IoError, IoKind};
use nyanpasu_core::manager::apply::{
    wrap_apply_warnings, ApplyAction, ApplyEvent, ApplyFlow, ApplyOutcome, ApplyRequest, Fallback,
    LoadedConfig,
};
use nyanpasu_core::manager::compensate::{CompensateAction, CompensateEvent, CompensateFlow};
use nyanpasu_core::manager::ctrl::{map_instance_state, ManagerState, QuarantinedEpoch};
use nyanpasu_core::manager::launch::{
    LaunchAction, LaunchEnd, LaunchEvent, LaunchFlow, LaunchRole,
};
use nyanpasu_core::manager::options::{
    validate_options, CoreManagerBuilder, SweepAction, SweepEvent, SweepFlow,
};
use nyanpasu_core::manager::reconcile::{
    kind_of, InPlaceAction, InPlaceEvent, InPlaceFlow, InPlaceKind,
};
use nyanpasu_core::manager::recover::{
    quarantined_artifacts, removed, RecoverAction, RecoverEvent, RecoverFlow,
};
use nyanpasu_core::manager::route::{
    probe_reconcile, reconcile_route, restart_spec, started, warns_of_http_fallback,
    ReconcileRoute, SwitchAction, SwitchEvent, SwitchFlow,
};
use nyanpasu_core::manager::start::{StartAction, StartEvent, StartFlow, StartRequest};
use nyanpasu_core::manager::stop::{shutdown_result, StopAction, StopEvent, StopFlow};
use nyanpasu_core::manager::switch::{
    with_durability, DegradeReason, GracefulAction, GracefulEvent, GracefulFlow, SwitchOutcome,
};
use nyanpasu_core::metadata::kind::ClashCoreKind;
use nyanpasu_core::platform::Platform;
use nyanpasu_core::process::error::ProcessError;
use nyanpasu_core::spec::{
    CoreSpec, InstanceOptions, InstanceSpec, LocalIpcPolicy, ManagerOptions,
};
use nyanpasu_core::state::{
    ConfigRevision, CoreState, InstanceState, InstanceStatus, RevisionId, StopReason,
};
use nyanpasu_core::time::Duration;

const SOURCE: &str = "external-controller: 127.0.0.1:9090\nallow-lan: false\nmixed-port: 7890\n";

fn store() -> RuntimeConfigStore {
    RuntimeConfigStore::open(Some("/run/nyanpasu".into())).unwrap()
}

fn spec(config_path: &str) -> Arc<InstanceSpec> {
    Arc::new(InstanceSpec {
        core: CoreSpec {
            kind: ClashCoreKind::Mihomo,
            binary_path: "/opt/fake-mihomo".into(),
            version: Some("v1.18.9".into()),
            features: Arc::new(Vec::new()),
        },
        config_path: config_path.into(),
        working_dir: "/data".into(),
        pid_file: None,
        options: InstanceOptions::default(),
    })
}

fn snapshot(raw: &str) -> Arc<ConfigSnapshot> {
    Arc::new(ConfigSnapshot::from_bytes("/data/config.yaml".into(), raw.as_bytes()).unwrap())
}

fn features(policy: LocalIpcPolicy) -> ResolvedFeatures {
    resolve_features(&spec("/data/config.yaml").core, None, policy, Platform::Unix).unwrap()
}

fn running(pid: u32) -> InstanceStatus {
    InstanceStatus { state: InstanceState::Running { pid }, health: None }
}

fn durable(path: &str) -> RuntimeConfigCommit {
    installed_commit(path.into(), Ok(()))
}

fn uncertain(path: &str) -> RuntimeConfigCommit {
    installed_commit(
        path.into(),
        Err(IoError::new(IoKind::Other, "injected parent sync failure".into())),
    )
}

fn start_request(raw: &str) -> StartRequest {
    StartRequest {
        platform: Platform::Unix,
        store: store(),
        spec: spec("/data/initial.yaml"),
        snapshot: snapshot(raw),
    }
}

/// A manager that runs the source as epoch one.
fn started_manager(raw: &str) -> ManagerState {
    let mut state = ManagerState::new(0, 1);
    let (mut flow, action) = StartFlow::begin(&mut state, start_request(raw), false);
    assert!(matches!(action, StartAction::Resolve { epoch: 1 }));
    let action = flow.step(
        &mut state,
        StartEvent::Resolved(Ok((features(LocalIpcPolicy::Disable), None))),
        2,
    );
    assert!(matches!(action, StartAction::Install { epoch: 1, .. }));
    let action = flow.step(
        &mut state,
        StartEvent::Installed(Ok("/run/nyanpasu/config-1.yaml".into())),
        3,
    );
    let StartAction::Check { spec } = action else {
        panic!("expected a check");
    };
    assert_eq!(spec.config_path, "/run/nyanpasu/config-1.yaml");
    let action = flow.step(&mut state, StartEvent::Checked(Ok(())), 4);
    let StartAction::Launch(request) = action else {
        panic!("expected a launch");
    };
    assert_eq!((request.epoch, request.role), (1, LaunchRole::Initial));
    assert!(matches!(state.status.state, CoreState::Starting { epoch: 1 }));
    let action = flow.step(&mut state, StartEvent::Launched(LaunchEnd::Ready(running(100))), 5);
    assert!(matches!(action, StartAction::Done(Ok(()))));
    state
}

fn revision(state: &ManagerState) -> &ConfigRevision {
    state.status.revision.as_ref().unwrap()
}

#[test]
fn managed_epoch_runs_from_preflight_through_cleanup() {
    let mut state =
        started_manager("external-controller: 127.0.0.1:9090\nsecret: test-secret\n");
    assert!(matches!(state.status.state, CoreState::Running { epoch: 1, pid: 100 }));
    assert_eq!(revision(&state).generation, 1);
    assert_eq!(revision(&state).runtime_path, "/run/nyanpasu/config-1.yaml");
    assert_eq!(state.status.spec.as_ref().unwrap().config_path, "/data/initial.yaml");
    let (_, action) = StartFlow::begin(&mut state, start_request(SOURCE), false);
    assert!(matches!(action, StartAction::Done(Err(Error::AlreadyRunning))));
    let (mut flow, action) = StopFlow::begin(&mut state, 6);
    assert!(matches!(action, StopAction::StopInstance { epoch: 1 }));
    assert!(matches!(state.status.state, CoreState::Stopping { epoch: 1 }));
    let action = flow.step(&mut state, StopEvent::Stopped(Ok(())), 7);
    assert!(matches!(action, StopAction::Cleanup { epoch: 1 }));
    let action = flow.step(&mut state, StopEvent::Cleaned(Ok(())), 8);
    assert!(matches!(action, StopAction::Done(Ok(()))));
    assert!(matches!(
        state.status.state,
        CoreState::Stopped { reason: Some(StopReason::User) }
    ));
    let (_, action) = StopFlow::begin(&mut state, 9);
    assert!(matches!(action, StopAction::Done(Err(Error::NotStarted))));
    assert!(shutdown_result(Err(Error::NotStarted)).is_ok());
}

#[test]
fn manager_publishes_the_initial_stopped_snapshot() {
    let state = ManagerState::new(4, 1);
    assert!(matches!(state.status.state, CoreState::Stopped { reason: None }));
    assert_eq!(state.epoch, 4);
}

#[test]
fn a_running_manager_starts_nothing_else() {
    let mut state = started_manager(SOURCE);
    let (_, action) = StartFlow::begin(&mut state, start_request(SOURCE), false);
    assert!(matches!(action, StartAction::Done(Err(Error::AlreadyRunning))));
    let (mut flow, action) = StartFlow::begin(&mut state, start_request(SOURCE), true);
    assert!(matches!(action, StartAction::StopStale { epoch: 1 }));
    flow.step(&mut state, StartEvent::Stopped(Ok(())), 7);
    let action = flow.step(&mut state, StartEvent::Cleaned(Ok(())), 8);
    assert!(matches!(action, StartAction::Resolve { epoch: 2 }));
}

#[test]
fn config_check_failure_is_told_and_cleaned() {
    let mut state = ManagerState::new(0, 1);
    let (mut flow, _) = StartFlow::begin(&mut state, start_request(SOURCE), false);
    flow.step(
        &mut state,
        StartEvent::Resolved(Ok((features(LocalIpcPolicy::Disable), None))),
        2,
    );
    flow.step(&mut state, StartEvent::Installed(Ok("/run/nyanpasu/config-1.yaml".into())), 3);
    let action = flow.step(
        &mut state,
        StartEvent::Checked(Err(Error::ConfigCheckFailed("bad".into()))),
        4,
    );
    assert!(matches!(action, StartAction::Cleanup { epoch: 1 }));
    let action = flow.step(&mut state, StartEvent::Cleaned(Ok(())), 5);
    assert!(matches!(action, StartAction::Done(Err(Error::ConfigCheckFailed(_)))));
    assert!(matches!(
        state.status.state,
        CoreState::Stopped { reason: Some(StopReason::Error(_)) }
    ));
}

#[test]
fn an_unstopped_start_quarantines_its_epoch() {
    let mut state = ManagerState::new(0, 1);
    let (mut flow, _) = StartFlow::begin(&mut state, start_request(SOURCE), false);
    flow.step(
        &mut state,
        StartEvent::Resolved(Ok((features(LocalIpcPolicy::Disable), None))),
        2,
    );
    flow.step(&mut state, StartEvent::Installed(Ok("/run/nyanpasu/config-1.yaml".into())), 3);
    flow.step(&mut state, StartEvent::Checked(Ok(())), 4);
    flow.step(
        &mut state,
        StartEvent::Launched(LaunchEnd::Unstopped(Error::StopUnconfirmed("stuck".into()))),
        5,
    );
    assert_eq!(state.ctrl.quarantine.len(), 1);
    let (_, action) = StartFlow::begin(&mut state, start_request(SOURCE), false);
    assert!(matches!(
        action,
        StartAction::Done(Err(Error::ManagerQuarantined { epoch: 1, .. }))
    ));
    assert!(restart_spec(&state.ctrl).is_err());
    assert!(probe_reconcile(&state.ctrl).is_err());
    assert!(reconcile_route(&state.ctrl, false, &None).is_err());
}

#[test]
fn rejected_instances_are_stopped() {
    let (mut flow, action) = LaunchFlow::begin(LaunchRole::Bootstrap);
    assert!(matches!(action, LaunchAction::Launch));
    assert!(matches!(flow.step(LaunchEvent::Launched(Ok(()))), LaunchAction::WaitReady));
    assert!(matches!(
        flow.step(LaunchEvent::Ready(Err(Error::NotStarted))),
        LaunchAction::Stop
    ));
    let LaunchAction::Done(LaunchEnd::Unstopped(Error::StopUnconfirmed(words))) =
        flow.step(LaunchEvent::Stopped(Err(Error::AlreadyRunning)))
    else {
        panic!("expected an unconfirmed stop");
    };
    assert!(words.contains("; failed to stop rejected graceful bootstrap: "), "{words}");
}

#[test]
fn news_of_other_epochs_are_dropped() {
    let mut state = started_manager(SOURCE);
    let ended = || InstanceStatus { state: InstanceState::Stopped(StopReason::Finished), health: None };
    assert!(!state.forward(7, ended(), 9));
    assert!(matches!(state.status.state, CoreState::Running { epoch: 1, pid: 100 }));
    assert!(state.forward(1, ended(), 9));
    assert!(matches!(
        state.status.state,
        CoreState::Stopped { reason: Some(StopReason::Finished) }
    ));
    assert!(matches!(
        map_instance_state(3, &InstanceState::Restarting { attempt: 2 }),
        CoreState::Restarting { epoch: 3, attempt: 2 }
    ));
}

// ---------------------------------------------------------------------------
// Applying
// ---------------------------------------------------------------------------

fn apply_request(fallback: Fallback) -> ApplyRequest {
    ApplyRequest {
        platform: Platform::Unix,
        store: store(),
        input: spec("/data/desired.yaml"),
        fallback,
    }
}

fn loaded(raw: &str) -> ApplyEvent {
    ApplyEvent::Loaded(Ok(LoadedConfig {
        features: features(LocalIpcPolicy::Disable),
        snapshot: snapshot(raw),
        endpoint: None,
    }))
}

fn backup() -> RuntimeConfigBackup {
    RuntimeConfigBackup::new("/run/nyanpasu/config-1.yaml.backup-2".into(), 1)
}

/// Applies a change in place, up to the question whether the core took it over.
fn applied_to_reconcile(
    state: &mut ManagerState,
    raw: &str,
    fallback: Fallback,
    commit: RuntimeConfigCommit,
) -> ApplyFlow {
    let expected = Some(revision(state).id());
    let (mut flow, action) = ApplyFlow::begin(state, apply_request(fallback), expected, false);
    assert!(matches!(action, ApplyAction::Load { epoch: 1 }));
    let action = flow.step(state, loaded(raw));
    if matches!(action, ApplyAction::Convert { .. }) {
        let action = flow.step(state, ApplyEvent::Converted(Ok(())));
        assert!(matches!(action, ApplyAction::Stage { epoch: 1, .. }));
    } else {
        assert!(matches!(action, ApplyAction::Stage { epoch: 1, .. }));
    }
    let file = "/run/nyanpasu/.config-1.yaml.tmp-1-0";
    let action = flow.step(state, ApplyEvent::Staged(Ok(file.into())));
    let ApplyAction::CheckStaged { spec: checked } = action else {
        panic!("expected a check");
    };
    let asked = apply_request(fallback).input;
    assert_eq!(checked.config_path, file);
    assert!(checked.core.same(&asked.core) && checked.working_dir == asked.working_dir);
    let action = flow.step(state, ApplyEvent::Checked(Ok(())));
    assert!(matches!(action, ApplyAction::Backup { epoch: 1, generation: 2 }));
    let action = flow.step(state, ApplyEvent::BackedUp(Ok(backup())));
    assert!(matches!(action, ApplyAction::Replace { epoch: 1, staged } if staged == file));
    let action = flow.step(state, ApplyEvent::Replaced(Ok(commit)));
    assert!(matches!(
        action,
        ApplyAction::Reconcile { kind: InPlaceKind::Patch | InPlaceKind::Reload, runtime_path }
            if runtime_path == "/run/nyanpasu/config-1.yaml"
    ));
    flow
}

const INITIAL: &str = "external-controller: 127.0.0.1:9090\nallow-lan: false\n";
const PATCHED: &str = "external-controller: 127.0.0.1:9090\nallow-lan: true\n";
const RULED: &str = "external-controller: 127.0.0.1:9090\nrules:\n  - MATCH,DIRECT\n";
const RELOADED: &str = "external-controller: 127.0.0.1:9090\nrules:\n  \
    - DOMAIN,example.com,DIRECT\n  - MATCH,DIRECT\n";

#[test]
fn patch_updates_generation_without_restarting_the_epoch() {
    let mut state = started_manager(INITIAL);
    let before = revision(&state).copy();
    let mut flow = applied_to_reconcile(
        &mut state,
        PATCHED,
        Fallback::NewEpoch,
        durable("/run/nyanpasu/config-1.yaml"),
    );
    let action = flow.step(&mut state, ApplyEvent::Reconciled(true));
    assert!(matches!(action, ApplyAction::RemoveBackup));
    let action = flow.step(&mut state, ApplyEvent::BackupRemoved(Ok(())));
    let ApplyAction::Done(Ok(ApplyOutcome::Patched { revision: after })) = action else {
        panic!("expected a patch");
    };
    assert_eq!((after.epoch, after.generation), (before.epoch, before.generation + 1));
    assert_ne!(after.effective_hash, before.effective_hash);
    assert_eq!(revision(&state).generation, 2);
    assert!(matches!(state.status.state, CoreState::Running { epoch: 1, pid: 100 }));
}

#[test]
fn reload_updates_generation_without_restarting_the_epoch() {
    let mut state = started_manager(RULED);
    let before = revision(&state).copy();
    let mut flow = applied_to_reconcile(
        &mut state,
        RELOADED,
        Fallback::NewEpoch,
        durable("/run/nyanpasu/config-1.yaml"),
    );
    flow.step(&mut state, ApplyEvent::Reconciled(true));
    let action = flow.step(&mut state, ApplyEvent::BackupRemoved(Ok(())));
    let ApplyAction::Done(Ok(ApplyOutcome::Reloaded { revision: after })) = action else {
        panic!("expected in-place reload");
    };
    assert_eq!(after.epoch, before.epoch);
    assert_eq!(after.generation, before.generation + 1);
    assert!(matches!(state.status.state, CoreState::Running { epoch: 1, pid: 100 }));
}

#[test]
fn installed_patch_reports_parent_sync_uncertainty_without_losing_the_outcome() {
    let mut state = started_manager(INITIAL);
    let mut flow = applied_to_reconcile(
        &mut state,
        PATCHED,
        Fallback::NewEpoch,
        uncertain("/run/nyanpasu/config-1.yaml"),
    );
    flow.step(&mut state, ApplyEvent::Reconciled(true));
    let action = flow.step(&mut state, ApplyEvent::BackupRemoved(Ok(())));
    let ApplyAction::Done(Ok(ApplyOutcome::DurabilityUncertain { outcome, warning })) = action
    else {
        panic!("expected a warning");
    };
    assert!(matches!(*outcome, ApplyOutcome::Patched { .. }));
    assert!(warning.contains("parent-directory synchronization failed"));
    assert!(warning.contains("injected parent sync failure"));
    assert!(matches!(state.status.state, CoreState::Running { epoch: 1, .. }));
}

#[test]
fn patch_verification_mismatch_falls_back_to_a_restart() {
    let behavior = "x-fake-core:\n  patch-no-effect: true\n";
    let mut state = started_manager(&format!("{INITIAL}{behavior}"));
    let before = revision(&state).copy();
    let mut flow = applied_to_reconcile(
        &mut state,
        &format!("{PATCHED}{behavior}"),
        Fallback::NewEpoch,
        durable("/run/nyanpasu/config-1.yaml"),
    );
    let action = flow.step(&mut state, ApplyEvent::Reconciled(false));
    assert!(matches!(action, ApplyAction::Restore));
    let action =
        flow.step(&mut state, ApplyEvent::Restored(Ok(durable("/run/nyanpasu/config-1.yaml"))));
    assert!(matches!(action, ApplyAction::RemoveBackup));
    let action = flow.step(&mut state, ApplyEvent::BackupRemoved(Ok(())));
    assert!(matches!(action, ApplyAction::Stop));
    let (mut stop, _) = StopFlow::begin(&mut state, 10);
    stop.step(&mut state, StopEvent::Stopped(Ok(())), 11);
    stop.step(&mut state, StopEvent::Cleaned(Ok(())), 12);
    let action = flow.step(&mut state, ApplyEvent::Stopped(Ok(())));
    let ApplyAction::Start { spec, snapshot } = action else {
        panic!("expected a start");
    };
    let request = StartRequest { platform: Platform::Unix, store: store(), spec, snapshot };
    let (mut start, action) = StartFlow::begin(&mut state, request, false);
    assert!(matches!(action, StartAction::Resolve { epoch: 2 }));
    start.step(
        &mut state,
        StartEvent::Resolved(Ok((features(LocalIpcPolicy::Disable), None))),
        13,
    );
    start.step(&mut state, StartEvent::Installed(Ok("/run/nyanpasu/config-2.yaml".into())), 14);
    start.step(&mut state, StartEvent::Checked(Ok(())), 15);
    start.step(&mut state, StartEvent::Launched(LaunchEnd::Ready(running(101))), 16);
    let action = flow.step(&mut state, ApplyEvent::Started(Ok(())));
    let ApplyAction::Done(Ok(ApplyOutcome::Restarted { revision })) = action else {
        panic!("expected a restart");
    };
    assert!(revision.epoch > before.epoch);
}

#[test]
fn failed_starts_go_back_to_what_ran() {
    let mut state = started_manager(SOURCE);
    let unknown = "external-controller: 127.0.0.1:9090\nallow-lan: false\nnovelty: 1\n";
    let (mut flow, _) = ApplyFlow::begin(&state, apply_request(Fallback::NewEpoch), None, false);
    flow.step(&mut state, loaded(unknown));
    flow.step(&mut state, ApplyEvent::Staged(Ok("x".into())));
    let action = flow.step(&mut state, ApplyEvent::Checked(Ok(())));
    assert!(matches!(action, ApplyAction::Stop));
    flow.step(&mut state, ApplyEvent::Stopped(Ok(())));
    let action =
        flow.step(&mut state, ApplyEvent::Started(Err(Error::ApplyFailed("no luck".into()))));
    assert!(matches!(action, ApplyAction::Start { .. }));
    let action = flow.step(&mut state, ApplyEvent::Started(Ok(())));
    assert!(matches!(
        action,
        ApplyAction::Done(Ok(ApplyOutcome::RolledBack { failed_apply, .. }))
            if failed_apply.contains("no luck")
    ));
}

#[test]
fn rejected_config_keeps_the_old_runtime_and_revision() {
    let mut state = started_manager("external-controller: 127.0.0.1:9090\n");
    let before = revision(&state).copy();
    let expected = Some(before.id());
    assert_eq!(reconcile_route(&state.ctrl, false, &expected).unwrap(), ReconcileRoute::Apply);
    let (mut flow, _) =
        ApplyFlow::begin(&state, apply_request(Fallback::NewEpoch), expected, false);
    let rejected = "external-controller: 127.0.0.1:9090\nx-fake-core:\n  \
        check-fail: port already in use\n";
    let action = flow.step(&mut state, loaded(rejected));
    assert!(matches!(action, ApplyAction::Stage { epoch: 1, .. }));
    flow.step(&mut state, ApplyEvent::Staged(Ok("x".into())));
    let refused = Error::ConfigCheckFailed("port already in use".into());
    let action = flow.step(&mut state, ApplyEvent::Checked(Err(refused)));
    assert!(matches!(action, ApplyAction::Done(Err(Error::ConfigCheckFailed(_)))));
    assert!(revision(&state).id().same(&before.id()));
    assert!(matches!(state.status.state, CoreState::Running { epoch: 1, pid: 100 }));
}

#[test]
fn reconcile_starts_cold_then_noops_on_the_same_config() {
    let source = "external-controller: 127.0.0.1:9090\n";
    let cold = ManagerState::new(0, 1);
    assert_eq!(reconcile_route(&cold.ctrl, false, &None).unwrap(), ReconcileRoute::Start);
    let mut state = started_manager(source);
    let Ok(ApplyOutcome::Started { revision: first }) = started(&state.status) else {
        panic!("cold reconcile must report Started");
    };
    assert_eq!(first.generation, 1);
    assert!(matches!(state.status.state, CoreState::Running { .. }));
    let expected = Some(first.id());
    assert_eq!(reconcile_route(&state.ctrl, false, &expected).unwrap(), ReconcileRoute::Apply);
    let request =
        ApplyRequest { input: spec("/data/initial.yaml"), ..apply_request(Fallback::NewEpoch) };
    let (mut flow, _) = ApplyFlow::begin(&state, request, expected, false);
    let action = flow.step(&mut state, loaded(source));
    assert!(matches!(
        action,
        ApplyAction::Done(Ok(ApplyOutcome::Noop { revision })) if revision.generation == 1
    ));
    assert!(matches!(started(&cold.status), Err(Error::ApplyFailed(_))));
}

fn stale() -> RevisionId {
    RevisionId { epoch: 99, generation: 9, effective_hash: "deadbeefdeadbeef".into() }
}

#[test]
fn reconcile_with_a_stale_expectation_changes_nothing() {
    let state = started_manager("external-controller: 127.0.0.1:9090\n");
    let before = revision(&state).id();
    assert_eq!(
        reconcile_route(&state.ctrl, false, &Some(stale())).unwrap(),
        ReconcileRoute::Apply
    );
    let (_, action) =
        ApplyFlow::begin(&state, apply_request(Fallback::NewEpoch), Some(stale()), false);
    let ApplyAction::Done(Err(Error::RevisionConflict { expected, actual })) = action else {
        panic!("expected a conflict");
    };
    assert!(expected.same(&stale()));
    assert!(actual.unwrap().same(&before));
    assert!(matches!(state.status.state, CoreState::Running { epoch: 1, pid: 100 }));
    assert!(revision(&state).id().same(&before));
}

#[test]
fn reconcile_against_a_stopped_manager_rejects_a_believed_revision() {
    let cold = ManagerState::new(0, 1);
    let believed =
        RevisionId { epoch: 1, generation: 1, effective_hash: "0123456789abcdef".into() };
    let Err(Error::RevisionConflict { actual, .. }) =
        reconcile_route(&cold.ctrl, false, &Some(believed))
    else {
        panic!("a believed revision cannot match a stopped manager");
    };
    assert!(actual.is_none());
    assert!(matches!(cold.status.state, CoreState::Stopped { .. }));
}

#[test]
fn failed_same_epoch_replacement_rolls_back_the_original_revision() {
    let mut state = started_manager(INITIAL);
    let before = revision(&state).copy();
    let mut flow = applied_to_reconcile(
        &mut state,
        PATCHED,
        Fallback::SameEpoch,
        durable("/run/nyanpasu/config-1.yaml"),
    );
    let action = flow.step(&mut state, ApplyEvent::Reconciled(false));
    let ApplyAction::Compensate(request) = action else {
        panic!("expected a restart in the same epoch");
    };
    let (mut flow, action) = CompensateFlow::begin(&mut state, request);
    assert!(matches!(action, CompensateAction::StopOld { epoch: 1 }));
    let action = flow.step(&mut state, CompensateEvent::Stopped(Ok(())), 10);
    let CompensateAction::Launch(launch) = action else {
        panic!("expected a launch");
    };
    assert_eq!((launch.epoch, launch.role), (1, LaunchRole::Replacement));
    assert_eq!(revision(&state).generation, 2);
    let refused = Error::ApplyFailed("injected desired replacement failure".into());
    let action =
        flow.step(&mut state, CompensateEvent::Launched(LaunchEnd::Refused(refused)), 11);
    assert!(matches!(action, CompensateAction::Restore));
    let action = flow.step(
        &mut state,
        CompensateEvent::Restored(Ok(durable("/run/nyanpasu/config-1.yaml"))),
        12,
    );
    assert!(matches!(action, CompensateAction::Launch(_)));
    let action =
        flow.step(&mut state, CompensateEvent::Launched(LaunchEnd::Ready(running(200))), 13);
    assert!(matches!(action, CompensateAction::RemoveBackup));
    let action = flow.step(&mut state, CompensateEvent::BackupRemoved(Ok(())), 14);
    let CompensateAction::Done(Ok(ApplyOutcome::RolledBack { revision: back, failed_apply })) =
        action
    else {
        panic!("expected rollback");
    };
    assert!(back.id().same(&before.id()));
    assert!(failed_apply.contains("injected desired replacement failure"));
    assert!(revision(&state).id().same(&before.id()));
    assert!(matches!(state.status.state, CoreState::Running { epoch: 1, pid: 200 }));
}

#[test]
fn a_restart_that_may_still_run_is_quarantined() {
    let mut state = started_manager(INITIAL);
    let mut flow = applied_to_reconcile(
        &mut state,
        PATCHED,
        Fallback::SameEpoch,
        durable("/run/nyanpasu/config-1.yaml"),
    );
    let ApplyAction::Compensate(request) =
        flow.step(&mut state, ApplyEvent::Reconciled(false))
    else {
        panic!("expected a restart in the same epoch");
    };
    let (mut flow, _) = CompensateFlow::begin(&mut state, request);
    flow.step(&mut state, CompensateEvent::Stopped(Ok(())), 10);
    let stuck = Error::StopUnconfirmed("stuck".into());
    let action =
        flow.step(&mut state, CompensateEvent::Launched(LaunchEnd::Unstopped(stuck)), 11);
    assert!(matches!(action, CompensateAction::Done(Err(Error::StopUnconfirmed(_)))));
    assert_eq!(state.ctrl.quarantine.len(), 1);
}

#[test]
fn warnings_wrap_from_the_last_to_the_first() {
    let outcome = wrap_apply_warnings(
        ApplyOutcome::Noop { revision: revision(&started_manager(SOURCE)).copy() },
        &vec!["first".into(), "second".into()],
    );
    let ApplyOutcome::DurabilityUncertain { outcome, warning } = outcome else {
        panic!("expected a warning");
    };
    assert_eq!(warning, "first");
    assert!(matches!(
        *outcome,
        ApplyOutcome::DurabilityUncertain { warning, .. } if warning == "second"
    ));
}

#[test]
fn patches_have_to_show() {
    assert_eq!(kind_of(&ConfigChange::Reload), InPlaceKind::Reload);
    let expected = RuntimeProjection::from_patch(&ConfigPatch {
        allow_lan: Some(true),
        ..ConfigPatch::default()
    });
    let (mut flow, action) = InPlaceFlow::begin(InPlaceKind::Patch, Some(expected));
    assert_eq!(action, InPlaceAction::SendPatch);
    let lost = Err(ApiError::Io("lost".into()));
    assert_eq!(flow.step(InPlaceEvent::Patched(lost)), InPlaceAction::ReadConfig);
    let shown = RuntimeConfig { allow_lan: Some(true), ..RuntimeConfig::default() };
    assert_eq!(flow.step(InPlaceEvent::Read(Ok(shown))), InPlaceAction::Probe);
    assert_eq!(
        flow.step(InPlaceEvent::Probed(ProbeResult::Healthy)),
        InPlaceAction::Done(true)
    );
    let (mut flow, _) = InPlaceFlow::begin(InPlaceKind::Reload, None);
    assert_eq!(flow.step(InPlaceEvent::TimedOut), InPlaceAction::Done(false));
}

// ---------------------------------------------------------------------------
// Switching
// ---------------------------------------------------------------------------

#[test]
fn safe_mihomo_switch_uses_the_graceful_overlap_path() {
    let mut state = started_manager(
        "external-controller: 127.0.0.1:9090\nmixed-port: 17890\nallow-lan: false\n",
    );
    let desired = "external-controller: 127.0.0.1:9091\nmixed-port: 17891\nallow-lan: true\n";
    let (mut route, action) = SwitchFlow::begin(&state.ctrl, false, spec("/data/desired.yaml"));
    assert!(matches!(action, SwitchAction::Inspect));
    let inspected =
        SwitchEvent::Inspected(Ok((features(LocalIpcPolicy::Force), snapshot(desired))));
    let SwitchAction::Graceful { features, .. } = route.step(inspected) else {
        panic!("expected a graceful switch");
    };
    let (mut flow, action) = GracefulFlow::begin(
        &mut state,
        start_request(desired),
        features,
        Ok(Some("/run/nyanpasu/core-2.sock")),
        false,
    );
    assert!(matches!(action, GracefulAction::Convert));
    let action = flow.step(&mut state, GracefulEvent::Converted(Ok(())), 10);
    let GracefulAction::StageFull { epoch: 2, bytes } = action else {
        panic!("expected the full configuration");
    };
    assert!(String::from_utf8(bytes).unwrap().contains("mixed-port: 17891"));
    let action = flow.step(&mut state, GracefulEvent::Staged(Ok("full".into())), 11);
    assert!(matches!(
        action,
        GracefulAction::CheckStaged { spec } if spec.config_path == "full"
    ));
    let action = flow.step(&mut state, GracefulEvent::Checked(Ok(())), 12);
    let GracefulAction::StageBootstrap { epoch: 2, bytes } = action else {
        panic!("expected the bootstrap configuration");
    };
    assert!(String::from_utf8(bytes).unwrap().contains("mixed-port: 0"));
    let action = flow.step(&mut state, GracefulEvent::Staged(Ok("bootstrap".into())), 13);
    assert!(matches!(
        action,
        GracefulAction::CheckStaged { spec } if spec.config_path == "bootstrap"
    ));
    let action = flow.step(&mut state, GracefulEvent::Checked(Ok(())), 14);
    assert!(matches!(
        action,
        GracefulAction::CommitBootstrap { epoch: 2, staged } if staged == "bootstrap"
    ));
    let committed = GracefulEvent::Committed(Ok("/run/nyanpasu/config-2.yaml".into()));
    let action = flow.step(&mut state, committed, 15);
    assert!(matches!(action, GracefulAction::Launch(_)));
    assert!(matches!(state.status.state, CoreState::Switching { from: Some(1), to: 2 }));
    let ready = GracefulEvent::Launched(LaunchEnd::Ready(running(101)));
    assert!(matches!(flow.step(&mut state, ready, 16), GracefulAction::StopOld { epoch: 1 }));
    let action = flow.step(&mut state, GracefulEvent::Stopped(Ok(())), 17);
    assert!(matches!(
        action,
        GracefulAction::ReplaceWithFull { epoch: 2, staged } if staged == "full"
    ));
    let replaced = GracefulEvent::Replaced(Ok(durable("/run/nyanpasu/config-2.yaml")));
    assert!(matches!(
        flow.step(&mut state, replaced, 18),
        GracefulAction::Reconcile { kind: InPlaceKind::Patch }
    ));
    let reconciled = GracefulEvent::Reconciled { ok: true, status: running(101) };
    let action = flow.step(&mut state, reconciled, 19);
    assert!(matches!(action, GracefulAction::Cleanup { epoch: 1 }));
    let action = flow.step(&mut state, GracefulEvent::Cleaned(Ok(())), 20);
    assert!(matches!(action, GracefulAction::Done(Ok(SwitchOutcome::Graceful))));
    assert!(matches!(state.status.state, CoreState::Running { epoch: 2, pid: 101 }));
    assert_eq!(revision(&state).epoch, 2);
    assert_eq!(revision(&state).runtime_path, "/run/nyanpasu/config-2.yaml");
}

#[test]
fn a_core_that_does_not_come_up_leaves_the_old_one_running() {
    let mut state = started_manager(SOURCE);
    let (mut flow, _) = GracefulFlow::begin(
        &mut state,
        start_request(SOURCE),
        features(LocalIpcPolicy::Force),
        Ok(Some("/run/nyanpasu/core-2.sock")),
        false,
    );
    flow.step(&mut state, GracefulEvent::Converted(Ok(())), 10);
    flow.step(&mut state, GracefulEvent::Staged(Ok("full".into())), 11);
    let refused = GracefulEvent::Checked(Err(Error::ConfigCheckFailed("bad".into())));
    assert!(matches!(
        flow.step(&mut state, refused, 12),
        GracefulAction::Cleanup { epoch: 2 }
    ));
    let action = flow.step(&mut state, GracefulEvent::Cleaned(Ok(())), 13);
    assert!(matches!(action, GracefulAction::AskRetained));
    let action = flow.step(&mut state, GracefulEvent::Retained(running(100)), 14);
    assert!(matches!(action, GracefulAction::Done(Err(Error::ConfigCheckFailed(_)))));
    assert!(matches!(state.status.state, CoreState::Running { epoch: 1, pid: 100 }));
}

#[test]
fn a_switch_without_an_endpoint_uses_up_its_epoch() {
    let mut state = started_manager(SOURCE);
    let (mut flow, action) = GracefulFlow::begin(
        &mut state,
        start_request(SOURCE),
        features(LocalIpcPolicy::Force),
        Err(Error::ApplyFailed("no socket".into())),
        false,
    );
    assert!(matches!(action, GracefulAction::Cleanup { epoch: 2 }));
    assert_eq!(state.epoch, 2);
    let action = flow.step(&mut state, GracefulEvent::Cleaned(Ok(())), 10);
    assert!(matches!(action, GracefulAction::AskRetained));
    let action = flow.step(&mut state, GracefulEvent::Retained(running(100)), 11);
    assert!(matches!(
        action,
        GracefulAction::Done(Err(Error::ApplyFailed(m))) if m == "no socket"
    ));
    assert!(matches!(state.status.state, CoreState::Running { epoch: 1, pid: 100 }));
    let (_, action) = GracefulFlow::begin(
        &mut state,
        start_request(SOURCE),
        features(LocalIpcPolicy::Force),
        Err(Error::ApplyFailed("no socket".into())),
        false,
    );
    assert!(matches!(action, GracefulAction::Cleanup { epoch: 3 }));
}

#[test]
fn statuses_are_copied_whole() {
    let state = started_manager(SOURCE);
    let copy = state.status.copy();
    assert!(matches!(copy.state, CoreState::Running { epoch: 1, pid: 100 }));
    assert_eq!(copy.health, state.status.health);
    assert_eq!(copy.spec, state.status.spec);
    assert_eq!(copy.revision, state.status.revision);
    assert_eq!(copy.controller.is_some(), state.status.controller.is_some());
    assert_eq!(copy.changed_at, state.status.changed_at);
}

#[test]
fn hard_switches_have_a_reason() {
    let state = started_manager(SOURCE);
    let (mut route, _) = SwitchFlow::begin(&state.ctrl, false, spec("/data/config.yaml"));
    let inspected =
        SwitchEvent::Inspected(Ok((features(LocalIpcPolicy::Disable), snapshot(SOURCE))));
    assert!(matches!(route.step(inspected), SwitchAction::Stop));
    assert!(matches!(route.step(SwitchEvent::Stopped(Ok(()))), SwitchAction::Start));
    assert!(matches!(
        route.step(SwitchEvent::Started(Ok(()))),
        SwitchAction::Done(Ok(SwitchOutcome::Hard { reason: DegradeReason::HttpController }))
    ));
    let cold = ManagerState::new(0, 1);
    let (_, action) = SwitchFlow::begin(&cold.ctrl, false, spec("/data/config.yaml"));
    assert!(matches!(action, SwitchAction::Start));
    let (_, action) = SwitchFlow::begin(&state.ctrl, true, spec("/data/config.yaml"));
    assert!(matches!(action, SwitchAction::Stop));
    assert_eq!(restart_spec(&state.ctrl).unwrap().config_path, "/data/initial.yaml");
    assert_eq!(probe_reconcile(&state.ctrl).unwrap(), 1);
    assert!(matches!(probe_reconcile(&cold.ctrl), Err(Error::NotStarted)));
    assert!(warns_of_http_fallback(LocalIpcPolicy::Prefer, false));
    assert!(!warns_of_http_fallback(LocalIpcPolicy::Disable, false));
    assert!(matches!(
        with_durability(Ok(SwitchOutcome::Graceful), Some("w".into())),
        Ok(SwitchOutcome::DurabilityUncertain { warning, .. }) if warning == "w"
    ));
}

// ---------------------------------------------------------------------------
// Quarantine and setting up
// ---------------------------------------------------------------------------

fn quarantined(epoch: u64, death_proven: bool) -> ManagerState {
    let mut state = ManagerState::new(9, 1);
    state.ctrl.quarantine.push(QuarantinedEpoch {
        epoch,
        reason: "uncertain stop".into(),
        death_proven,
    });
    state
}

#[test]
fn proven_dead_quarantine_is_cleaned_and_unlatched() {
    let mut state = quarantined(4, true);
    let (mut flow, action) = RecoverFlow::begin(&mut state, 2);
    assert!(matches!(action, RecoverAction::Cleanup { epoch: 4 }));
    let gone = quarantined_artifacts(&store(), 4);
    assert!(gone.contains(&"/run/nyanpasu/config-4.yaml".to_owned()));
    assert!(gone.contains(&"/run/nyanpasu/core-4.sock".to_owned()));
    let action = flow.step(&mut state, RecoverEvent::Cleaned(Ok(())), 3);
    assert!(matches!(action, RecoverAction::Done(Ok(()))));
    assert!(state.ctrl.quarantine.is_empty());
    assert!(matches!(state.status.state, CoreState::Stopped { reason: None }));
}

#[test]
fn missing_authoritative_pid_record_keeps_the_latch_closed() {
    let mut state = quarantined(5, false);
    let (mut flow, action) = RecoverFlow::begin(&mut state, 2);
    assert!(matches!(action, RecoverAction::Reap { epoch: 5 }));
    let action =
        flow.step(&mut state, RecoverEvent::Reaped(Ok(OrphanReapOutcome::NotFound)), 3);
    assert!(matches!(
        action,
        RecoverAction::Done(Err(Error::ManagerQuarantined { epoch: 5, reason }))
            if reason == "epoch 5: authoritative pid record is unavailable"
    ));
    assert_eq!(state.ctrl.quarantine.len(), 1);
}

#[test]
fn exited_epoch_with_identity_record_is_recovered() {
    let mut state = quarantined(6, false);
    let (mut flow, _) = RecoverFlow::begin(&mut state, 2);
    let action =
        flow.step(&mut state, RecoverEvent::Reaped(Ok(OrphanReapOutcome::AlreadyExited)), 3);
    assert!(matches!(action, RecoverAction::Cleanup { epoch: 6 }));
    assert!(state.ctrl.quarantine[0].death_proven);
    let gone = quarantined_artifacts(&store(), 6);
    assert!(gone.contains(&"/run/nyanpasu/core-6.pid".to_owned()));
    assert!(gone.contains(&"/run/nyanpasu/config-6.yaml".to_owned()));
    let action = flow.step(&mut state, RecoverEvent::Cleaned(Ok(())), 4);
    assert!(matches!(action, RecoverAction::Done(Ok(()))));
    assert!(state.ctrl.quarantine.is_empty());
}

#[test]
fn failures_of_recovery_are_listed() {
    let mut state = quarantined(6, false);
    state.ctrl.quarantine.push(QuarantinedEpoch {
        epoch: 7,
        reason: "uncertain stop".into(),
        death_proven: true,
    });
    let (mut flow, _) = RecoverFlow::begin(&mut state, 2);
    flow.step(&mut state, RecoverEvent::Reaped(Err(ProcessError::AlreadyExited)), 3);
    let failed = Err(Error::Io(IoError::new(IoKind::PermissionDenied, "denied".into())));
    let action = flow.step(&mut state, RecoverEvent::Cleaned(failed), 4);
    let RecoverAction::Done(Err(Error::ManagerQuarantined { epoch: 6, reason })) = action else {
        panic!("expected a quarantine");
    };
    assert!(reason.starts_with("epoch 6: recovery failed: process already exited | epoch 7: "));
    assert_eq!(state.ctrl.quarantine.len(), 2);
    assert_eq!(
        quarantined_artifacts(&store(), 6),
        [
            "/run/nyanpasu/config-6.yaml",
            "/run/nyanpasu/core-6.pid",
            "/run/nyanpasu/core-6.sock"
        ]
    );
    let gone = Err(Error::Io(IoError::new(IoKind::NotFound, "gone".into())));
    assert!(removed(gone).is_ok());
    let (_, action) = RecoverFlow::begin(&mut ManagerState::new(0, 1), 2);
    assert!(matches!(action, RecoverAction::Done(Ok(()))));
}

fn options() -> ManagerOptions {
    ManagerOptions { runtime_dir: Some("/run/nyanpasu".into()), ..ManagerOptions::default() }
}

#[test]
fn runtime_directory_and_nonzero_timeouts_are_required() {
    assert!(validate_options(&ManagerOptions::default()).is_err());
    let mut invalid = options();
    invalid.control_timeout = Duration::zero();
    assert!(matches!(
        validate_options(&invalid),
        Err(Error::InvalidManagerOptions(m)) if m == "control_timeout must be greater than zero"
    ));
    assert!(validate_options(&options()).is_ok());
    let empty = ManagerOptions { runtime_dir: Some(String::new()), ..ManagerOptions::default() };
    assert!(validate_options(&empty).is_err());
    assert!(validate_options(&ManagerOptions { log_max_files: 0, ..options() }).is_err());
    assert!(validate_options(&ManagerOptions { log_max_bytes: 0, ..options() }).is_err());
}

#[test]
fn controller_template_must_include_epoch() {
    let mut invalid = options();
    invalid.controller_template = Some("core.sock".into());
    assert!(validate_options(&invalid).is_err());

    let mut valid = options();
    valid.controller_template = Some("core-{epoch}.sock".into());
    assert!(validate_options(&valid).is_ok());
}

/// Removes the files of an epoch from a directory of regular files.
fn clean(files: &mut Vec<String>, epoch: u64) -> Result<(), Error> {
    let store = store();
    let plain =
        SocketMetadata { symlink: false, reparse_point: false, socket: false, regular: true };
    let at = |name: &String| format!("/run/nyanpasu/{name}");
    let socket = store.socket_path(epoch);
    let found = if files.iter().any(|name| at(name) == socket) {
        Ok(plain)
    } else {
        Err(IoError { kind: IoKind::NotFound, code: None, message: "missing".into() })
    };
    let remove_socket = remove_socket_artifact(Platform::Unix, &socket, found)?;
    files.retain(|name| {
        let path = at(name);
        !(path == store.runtime_path(epoch)
            || path == store.pid_path(epoch)
            || (path == socket && remove_socket)
            || store.is_left_behind(epoch, name))
    });
    Ok(())
}

#[test]
fn construction_resumes_after_the_highest_epoch_artifact() {
    let mut files: Vec<String> =
        vec!["config-7.yaml".into(), "core-9.sock".into(), "config-noise.yaml.tmp".into()];
    let (mut flow, mut action) = SweepFlow::begin(artifact_epochs(&files));
    let last = loop {
        action = match action {
            SweepAction::Look { epoch } => {
                let recorded = files.contains(&format!("core-{epoch}.pid"));
                flow.step(SweepEvent::Looked(Ok(recorded)))
            }
            SweepAction::Cleanup { epoch } => {
                flow.step(SweepEvent::Cleaned(clean(&mut files, epoch)))
            }
            SweepAction::Done(result) => break result,
            other => panic!("unexpected {other:?}"),
        };
    };
    assert_eq!(last.unwrap(), 9);
    assert!(!files.contains(&"config-7.yaml".to_owned()));
    assert!(!files.contains(&"core-9.sock".to_owned()));
    assert!(files.contains(&"config-noise.yaml.tmp".to_owned()));
}

#[test]
fn recorded_epochs_are_reaped_before_they_are_cleaned() {
    let (mut flow, action) = SweepFlow::begin(vec![7, 9]);
    assert!(matches!(action, SweepAction::Look { epoch: 7 }));
    assert!(matches!(
        flow.step(SweepEvent::Looked(Ok(false))),
        SweepAction::Cleanup { epoch: 7 }
    ));
    assert!(matches!(flow.step(SweepEvent::Cleaned(Ok(()))), SweepAction::Look { epoch: 9 }));
    assert!(matches!(
        flow.step(SweepEvent::Looked(Ok(true))),
        SweepAction::Reap { epoch: 9 }
    ));
    assert!(matches!(
        flow.step(SweepEvent::Reaped(Ok(OrphanReapOutcome::AlreadyExited))),
        SweepAction::Cleanup { epoch: 9 }
    ));
    assert!(matches!(flow.step(SweepEvent::Cleaned(Ok(()))), SweepAction::Done(Ok(9))));
    let (_, action) = SweepFlow::begin(Vec::new());
    assert!(matches!(action, SweepAction::Done(Ok(0))));
}

#[test]
fn probes_are_chosen_by_the_builder() {
    let builder = CoreManagerBuilder::new(options())
        .readiness_probe(ProbeHandle::new("ready"))
        .liveness_probe(ProbeHandle::new("alive"));
    assert_eq!(builder.readiness.as_ref().unwrap().label(), "ready");
    assert_eq!(builder.liveness.as_ref().unwrap().label(), "alive");
    let builder = builder.liveness_with_readiness_probe();
    assert!(builder.liveness.is_none() && builder.liveness_with_readiness);
}
