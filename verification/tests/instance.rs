use std::sync::Arc;

use nyanpasu_core::clash_api::client::Host;
use nyanpasu_core::error::Error;
use nyanpasu_core::health::driver::ProbeObservation;
use nyanpasu_core::health::policy::HealthPolicy;
use nyanpasu_core::health::probe::{ProbeHandle, ProbePhase, ProbeResult};
use nyanpasu_core::instance::{
    build_command, not_ready_answer, probe_answer, probe_request, ready_step, reap_step,
    stop_step, stop_step_in, InstanceBuilder, LogTail, Monitor, MonitorAction, MonitorEvent, OrphanReapOutcome,
    ProbeReply, ReadyEvent, StopStep, SupervisorEnd,
};
use nyanpasu_core::metadata::kind::ClashCoreKind;
use nyanpasu_core::metadata::log::{LogFrame, LogLevel, LogStream};
use nyanpasu_core::platform::Platform;
use nyanpasu_core::process::error::ProcessError;
use nyanpasu_core::spec::{CoreSpec, InstanceOptions, InstanceSpec, ResolvedController};
use nyanpasu_core::state::{HealthState, InstanceState, StopReason};
use nyanpasu_core::time::Duration;

fn spec() -> InstanceSpec {
    InstanceSpec {
        core: CoreSpec {
            kind: ClashCoreKind::ClashRust,
            binary_path: "/opt/clash-rs".into(),
            version: None,
            features: Arc::new(Vec::new()),
        },
        config_path: "/run/config-3.yaml".into(),
        working_dir: "/data".into(),
        pid_file: Some("/run/core-3.pid".into()),
        options: InstanceOptions::default(),
    }
}

fn controller() -> ResolvedController {
    ResolvedController { host: Host::unix_socket("/run/core-3.sock".into()), secret: None }
}

#[test]
fn missing_artifacts_fail_before_spawning() {
    let missing = InstanceSpec {
        core: CoreSpec {
            kind: ClashCoreKind::Mihomo,
            binary_path: "definitely-missing-core".into(),
            version: Some("1.18.9".into()),
            features: Arc::new(Vec::new()),
        },
        config_path: "definitely-missing-config.yaml".into(),
        working_dir: ".".into(),
        pid_file: None,
        options: InstanceOptions::default(),
    };
    let local =
        ResolvedController { host: Host::http("127.0.0.1:1").unwrap(), secret: None };
    let builder = InstanceBuilder::new(Arc::new(missing), 1, Arc::new(local));
    assert!(matches!(
        builder.check_artifacts(false, false),
        Err(Error::ConfigNotFound(p)) if p == "definitely-missing-config.yaml"
    ));
    let builder = InstanceBuilder::new(Arc::new(spec()), 3, Arc::new(controller()));
    assert!(matches!(
        builder.check_artifacts(false, true),
        Err(Error::ConfigNotFound(p)) if p == "/run/config-3.yaml"
    ));
    assert!(matches!(
        builder.check_artifacts(true, false),
        Err(Error::BinaryNotFound(p)) if p == "/opt/clash-rs"
    ));
    assert!(builder.check_artifacts(true, true).is_ok());
}

#[test]
fn probes_default_to_the_version() {
    let builder = InstanceBuilder::new(Arc::new(spec()), 3, Arc::new(controller()));
    let plan = builder.probes();
    assert_eq!(plan.readiness.label(), "controller-version");
    assert!(plan.liveness.is_none());
    let plan = builder
        .readiness_probe(ProbeHandle::new("mine"))
        .liveness_with_readiness_probe()
        .probes();
    assert_eq!(plan.readiness.label(), "mine");
    assert_eq!(plan.liveness.unwrap().label(), "mine");
}

#[test]
fn commands_carry_the_controller_and_the_record() {
    let command = build_command(&spec(), 3, &controller(), Platform::Unix);
    assert_eq!(
        command.args,
        ["-d", "/data", "-c", "/run/config-3.yaml", "--controller-ipc", "/run/core-3.sock"]
    );
    assert_eq!(command.current_dir.as_deref(), Some("/data"));
    assert!(command.envs.contains(&("SAFE_PATHS".to_owned(), "/data:/run".to_owned())));
    let file = command.epoch_pid_file.unwrap();
    assert_eq!((file.path(), file.epoch()), ("/run/core-3.pid", 3));
}

fn frame(message: &str) -> Arc<LogFrame> {
    Arc::new(LogFrame {
        at: 1,
        epoch: 3,
        kind: ClashCoreKind::ClashRust,
        stream: LogStream::Stderr,
        level: LogLevel::Error,
        timestamp: None,
        target: None,
        message: message.into(),
        fields: Vec::new(),
        raw: message.into(),
        truncated: false,
    })
}

#[test]
fn the_tail_keeps_the_latest_records() {
    let mut tail = LogTail::new();
    for i in 0..40 {
        tail = tail.push(frame(&format!("line {i}")));
    }
    assert_eq!(tail.frames().len(), 32);
    assert_eq!(tail.frames()[0].message, "line 8");
    assert!(tail.diagnostics().contains("line 39"));
}

#[test]
fn startup_failures_show_what_was_printed() {
    let tail = LogTail::new().push(frame("bad config"));
    assert!(ready_step(ReadyEvent::State(InstanceState::Starting), &tail).is_none());
    assert!(matches!(
        ready_step(ReadyEvent::State(InstanceState::Running { pid: 1 }), &tail),
        Some(Ok(()))
    ));
    assert!(matches!(
        ready_step(ReadyEvent::State(InstanceState::Stopped(StopReason::Finished)), &tail),
        Some(Err(Error::StartupFailed { stderr_tail })) if stderr_tail.contains("bad config")
    ));
    assert!(matches!(
        ready_step(ReadyEvent::TimedOut, &LogTail::new()),
        Some(Err(Error::StartupTimeout { stderr_tail }))
            if stderr_tail == "controller readiness probe did not become healthy"
    ));
    assert!(matches!(
        ready_step(ReadyEvent::ChannelClosed, &LogTail::new()),
        Some(Err(Error::StartupFailed { .. }))
    ));
}

fn says(result: ProbeResult, words: &str) -> bool {
    matches!(result, ProbeResult::Unhealthy { detail: Some(d) } if d == words)
}

#[test]
fn only_reconciliation_is_probed_on_demand() {
    assert!(probe_request(ProbePhase::Reconcile).is_none());
    assert!(probe_request(ProbePhase::Liveness).is_some());
    assert!(probe_answer(ProbeReply::Answered(ProbeResult::Healthy)).is_healthy());
    assert!(says(probe_answer(ProbeReply::NoMonitor), "instance probe monitor is not running"));
    assert!(says(probe_answer(ProbeReply::NoDriver), "instance probe driver stopped"));
    assert!(says(not_ready_answer(), "instance probe driver is not ready"));
}

const CONFIG: &str = "/run/nyanpasu/config-1.yaml";

#[test]
fn death_needs_evidence() {
    let second = Duration::from_secs(1);
    assert!(matches!(
        stop_step(SupervisorEnd::Stopped, second, true, false, true, CONFIG),
        StopStep::Dead { publish: true }
    ));
    let StopStep::Reap { error, dir } =
        stop_step(SupervisorEnd::TimedOut, second, true, false, true, CONFIG)
    else {
        panic!("expected the record to decide");
    };
    assert_eq!(error, "supervisor stop exceeded 1s");
    assert_eq!(dir, "/run/nyanpasu");
    assert!(matches!(
        stop_step_in(SupervisorEnd::Absent, second, false, false, true, None),
        StopStep::Fail(Error::StopUnconfirmed(m)) if m == "runtime config has no parent directory"
    ));
    assert!(matches!(
        reap_step(error.clone(), Ok(OrphanReapOutcome::Killed), false),
        StopStep::Dead { publish: true }
    ));
    assert!(matches!(
        reap_step(error.clone(), Ok(OrphanReapOutcome::NotFound), false),
        StopStep::Fail(Error::StopUnconfirmed(m)) if m == "supervisor stop exceeded 1s"
    ));
    assert!(matches!(
        reap_step(error, Err(ProcessError::AlreadyExited), false),
        StopStep::Fail(Error::StopUnconfirmed(m))
            if m == "supervisor stop exceeded 1s; epoch identity reaper failed: process already exited"
    ));
    assert!(matches!(
        stop_step(SupervisorEnd::Absent, second, false, false, false, CONFIG),
        StopStep::Fail(Error::StopUnconfirmed(m))
            if m == "instance monitor did not confirm termination"
    ));
    assert!(matches!(
        stop_step(SupervisorEnd::Absent, second, false, false, true, ""),
        StopStep::Fail(Error::StopUnconfirmed(m)) if m == "runtime config has no parent directory"
    ));
}

fn observation(run_id: u64, pid: u32, result: ProbeResult) -> MonitorEvent {
    MonitorEvent::Observed(ProbeObservation {
        run_id,
        pid,
        phase: ProbePhase::Readiness,
        completed_at: Duration::from_secs(2),
        completed_at_ms: 2000,
        result,
    })
}

#[test]
fn readiness_needs_a_healthy_probe_of_the_current_run() {
    let mut monitor = Monitor::new(HealthPolicy::default());
    assert_eq!(monitor.step(MonitorEvent::ProbeAsked), MonitorAction::AnswerNotReady);
    let started = MonitorEvent::Started { pid: 9, now: Duration::from_secs(1), now_ms: 1000 };
    assert_eq!(
        monitor.step(started),
        MonitorAction::StartDriver { run_id: 1, pid: 9 }
    );
    assert_eq!(monitor.step(observation(0, 9, ProbeResult::Healthy)), MonitorAction::Wait);
    assert_eq!(
        monitor.step(observation(1, 9, ProbeResult::Unhealthy { detail: None })),
        MonitorAction::Wait
    );
    assert_eq!(
        monitor.step(observation(1, 9, ProbeResult::Healthy)),
        MonitorAction::AcknowledgeReady { pid: 9 }
    );
    assert_eq!(monitor.status.health.as_ref().unwrap().state, HealthState::Healthy);
    assert_eq!(monitor.status.health.as_ref().unwrap().last_success_at, Some(2000));
    assert_eq!(monitor.step(MonitorEvent::Ready), MonitorAction::UseLiveness);
    assert!(matches!(monitor.status.state, InstanceState::Running { pid: 9 }));
    assert_eq!(monitor.step(MonitorEvent::Restarting { attempt: 1 }), MonitorAction::Wait);
    assert_eq!(monitor.step(MonitorEvent::GaveUp), MonitorAction::End);
    assert!(matches!(monitor.status.state, InstanceState::Stopped(StopReason::Error(_))));
}
