use nyanpasu_core::clash_api::client::{Host, Secret};
use nyanpasu_core::clash_api::error::Error as ApiError;
use nyanpasu_core::error::Error;
use nyanpasu_core::health::driver::{
    attempt_result, Attempt, AttemptEnd, DriverAction, DriverEvent, ProbeDriver,
};
use nyanpasu_core::health::policy::{HealthPolicy, Threshold};
use nyanpasu_core::health::probe::{ControllerVersionProbe, ProbeHandle, ProbePhase, ProbeResult};
use nyanpasu_core::health::tracker::{
    cap_detail, HealthTracker, TrackerState, MAX_LAST_ERROR_BYTES,
};
use nyanpasu_core::spec::ResolvedController;
use nyanpasu_core::time::Duration;

#[test]
fn defaults_match_the_manager_design() {
    let policy = HealthPolicy::default();
    assert_eq!(policy.interval(), Duration::from_millis(250));
    assert_eq!(policy.timeout(), Duration::from_secs(1));
    assert_eq!(policy.failure_threshold().get(), 3);
    assert_eq!(policy.success_threshold().get(), 1);
    assert_eq!(policy.start_period(), Duration::zero());
}

#[test]
fn zero_interval_or_timeout_is_rejected() {
    assert!(HealthPolicy::new(
        Duration::zero(),
        Duration::from_secs(1),
        Threshold::one(),
        Threshold::one(),
        Duration::zero(),
    )
    .is_err());
    assert!(HealthPolicy::new(
        Duration::from_secs(1),
        Duration::zero(),
        Threshold::one(),
        Threshold::one(),
        Duration::zero(),
    )
    .is_err());
}

#[test]
fn refused_policies_say_why() {
    let refused = HealthPolicy::new(
        Duration::zero(),
        Duration::zero(),
        Threshold::one(),
        Threshold::one(),
        Duration::zero(),
    );
    assert!(matches!(refused, Err(Error::InvalidHealthPolicy(m)) if m.contains("interval")));
    assert!(Threshold::new(0).is_none());
}

fn policy(failures: u32, successes: u32, start_period: Duration) -> HealthPolicy {
    HealthPolicy::new(
        Duration::from_millis(10),
        Duration::from_millis(20),
        Threshold::new(failures).unwrap(),
        Threshold::new(successes).unwrap(),
        start_period,
    )
    .unwrap()
}

#[test]
fn thresholds_require_consecutive_results() {
    let started = Duration::from_secs(100);
    let mut tracker = HealthTracker::new(policy(2, 2, Duration::zero()), started);
    let unhealthy = ProbeResult::Unhealthy {
        detail: Some("down".into()),
    };
    let first = tracker.observe(started, &unhealthy);
    assert_eq!(first.state, TrackerState::Starting);
    assert_eq!(first.consecutive_failures, 1);
    let second = tracker.observe(started, &unhealthy);
    assert_eq!(second.state, TrackerState::Unhealthy);
    assert!(second.transitioned);

    let first_success = tracker.observe(started, &ProbeResult::Healthy);
    assert_eq!(first_success.state, TrackerState::Unhealthy);
    let second_success = tracker.observe(started, &ProbeResult::Healthy);
    assert_eq!(second_success.state, TrackerState::Healthy);
    assert!(second_success.transitioned);
}

#[test]
fn start_period_ignores_failures_until_it_expires() {
    let started = Duration::from_secs(100);
    let mut tracker = HealthTracker::new(policy(1, 1, Duration::from_secs(5)), started);
    let failure = ProbeResult::Unhealthy {
        detail: Some("warming up".into()),
    };
    let during_grace = tracker.observe(Duration::from_secs(104), &failure);
    assert_eq!(during_grace.state, TrackerState::Starting);
    assert_eq!(during_grace.consecutive_failures, 0);
    let after_grace = tracker.observe(Duration::from_secs(105), &failure);
    assert_eq!(after_grace.state, TrackerState::Unhealthy);
}

#[test]
fn healthy_result_ends_the_start_period() {
    let started = Duration::from_secs(100);
    let mut tracker = HealthTracker::new(policy(1, 1, Duration::from_secs(30)), started);
    assert_eq!(
        tracker.observe(started, &ProbeResult::Healthy).state,
        TrackerState::Healthy
    );
    let failure = tracker.observe(
        Duration::from_secs(101),
        &ProbeResult::Unhealthy {
            detail: Some("down".into()),
        },
    );
    assert_eq!(failure.state, TrackerState::Unhealthy);
}

#[test]
fn error_detail_is_capped_on_a_utf8_boundary() {
    let detail = "é".repeat(MAX_LAST_ERROR_BYTES);
    let capped = cap_detail(&detail);
    assert!(capped.len() <= MAX_LAST_ERROR_BYTES);
    assert!(capped.is_char_boundary(capped.len()));
}

#[test]
fn handle_debug_prints_only_the_label() {
    let probe = ProbeHandle::new("safe-label");
    let debug = probe.debug_text();
    assert_eq!(debug, "ProbeHandle { label: \"safe-label\" }");
    assert!(!debug.contains("do-not-log"));
}

#[test]
fn labels_are_quoted() {
    assert_eq!(
        ProbeHandle::new("a\"b").debug_text(),
        "ProbeHandle { label: \"a\\\"b\" }"
    );
    assert_eq!(ProbeHandle::new("x").copy().label(), "x");
}

#[test]
fn the_version_probe_asks_the_controller() {
    let controller = ResolvedController {
        host: Host::unix_socket("/run/core.sock".into()),
        secret: Some("key".into()),
    };
    let probe = ControllerVersionProbe::new(&controller);
    assert!(matches!(probe.client().host(), Host::UnixSocket(path) if path == "/run/core.sock"));
    assert!(Secret::new("key").authorization_value().is_ok());
    assert!(ControllerVersionProbe::judge(Ok(())).is_healthy());
    let down = ControllerVersionProbe::judge(Err(ApiError::HttpStatus {
        status: 503,
        body: "down".into(),
    }));
    assert!(matches!(down, ProbeResult::Unhealthy { detail: Some(d) } if d.contains("503")));
}

#[test]
fn attempts_end_with_an_answer_a_timeout_or_nothing() {
    let timeout = Duration::from_secs(1);
    assert_eq!(
        attempt_result(AttemptEnd::Answered(ProbeResult::Healthy), timeout),
        Some(ProbeResult::Healthy)
    );
    let Some(ProbeResult::Unhealthy { detail: Some(words) }) =
        attempt_result(AttemptEnd::TimedOut, timeout)
    else {
        panic!("a probe that times out is unhealthy");
    };
    assert!(words.contains("1s"), "{words}");
    assert_eq!(attempt_result(AttemptEnd::Cancelled, timeout), None);
}

fn ended(end: AttemptEnd, secs: u64) -> DriverEvent {
    DriverEvent::Ended { end, now: Duration::from_secs(secs), now_ms: 1_000 }
}

#[test]
fn periodic_and_reconcile_attempts_are_serialized() {
    let mut driver = ProbeDriver::start(
        2,
        10,
        true,
        Duration::from_millis(1),
        Duration::from_secs(2),
        Duration::zero(),
    );
    let use_liveness = DriverEvent::UseLiveness { now: Duration::zero() };
    assert_eq!(driver.step(use_liveness), DriverAction::Wait);
    assert!(matches!(
        driver.step(DriverEvent::Due),
        DriverAction::Attempt(Attempt { phase: ProbePhase::Liveness, answer: false, .. })
    ));
    assert_eq!(driver.step(DriverEvent::ReconcileAsked), DriverAction::Later);
    assert_eq!(driver.step(DriverEvent::Due), DriverAction::Later);
    let action = driver.step(ended(AttemptEnd::Answered(ProbeResult::Healthy), 1));
    let DriverAction::Observe { observation: first, answer: false } = action else {
        panic!("expected an observation");
    };
    assert_eq!(first.phase, ProbePhase::Liveness);
    assert_eq!(first.run_id, 2);
    assert_eq!(first.pid, 10);
    assert!(first.completed_at_ms > 0);
    assert_eq!(first.completed_at, Duration::from_secs(1));
    assert!(matches!(
        driver.step(DriverEvent::ReconcileAsked),
        DriverAction::Attempt(Attempt { phase: ProbePhase::Reconcile, answer: true, .. })
    ));
    let action = driver.step(ended(AttemptEnd::Answered(ProbeResult::Healthy), 2));
    let DriverAction::Observe { observation, answer: true } = action else {
        panic!("expected an answer");
    };
    assert!(observation.result.is_healthy());
    assert_eq!(driver.step(DriverEvent::Cancelled), DriverAction::Stop);
}

#[test]
fn one_probe_is_tried_at_a_time() {
    let second = Duration::from_secs(1);
    let mut driver =
        ProbeDriver::start(1, 7, true, second, second, Duration::from_secs(10));
    assert_eq!(
        driver.step(DriverEvent::Due),
        DriverAction::Attempt(Attempt {
            with_liveness: false,
            phase: ProbePhase::Readiness,
            answer: false
        })
    );
    assert!(matches!(
        driver.step(ended(AttemptEnd::TimedOut, 11)),
        DriverAction::Observe { observation, .. } if !observation.result.is_healthy()
    ));
    assert_eq!(driver.due_at(), Some(12_000_000_000));
    driver.step(DriverEvent::UseLiveness { now: Duration::from_secs(20) });
    assert_eq!(driver.due_at(), Some(21_000_000_000));
    assert_eq!(
        driver.step(DriverEvent::ReconcileAsked),
        DriverAction::Attempt(Attempt {
            with_liveness: true,
            phase: ProbePhase::Reconcile,
            answer: true
        })
    );
    assert_eq!(driver.step(ended(AttemptEnd::Cancelled, 20)), DriverAction::Wait);
    assert_eq!(driver.due_at(), Some(21_000_000_000));
    assert_eq!(driver.step(DriverEvent::Cancelled), DriverAction::Stop);
    assert_eq!(driver.step(DriverEvent::Due), DriverAction::Stop);
    assert_eq!(driver.due_at(), None);
}

#[test]
fn the_state_follows_the_answers() {
    let policy = HealthPolicy::new(
        Duration::from_secs(1),
        Duration::from_secs(1),
        Threshold::new(2).unwrap(),
        Threshold::new(2).unwrap(),
        Duration::from_secs(10),
    )
    .unwrap();
    let mut tracker = HealthTracker::new(policy, Duration::zero());
    let mut observe = |secs: u64, healthy: bool| {
        let result = if healthy {
            ProbeResult::Healthy
        } else {
            ProbeResult::Unhealthy { detail: None }
        };
        let update = tracker.observe(Duration::from_secs(secs), &result);
        (update.state, update.transitioned, update.consecutive_failures)
    };
    assert_eq!(observe(1, false), (TrackerState::Starting, false, 0));
    assert_eq!(observe(2, true), (TrackerState::Starting, false, 0));
    assert_eq!(observe(3, false), (TrackerState::Starting, false, 1));
    assert_eq!(observe(4, true), (TrackerState::Starting, false, 0));
    assert_eq!(observe(5, true), (TrackerState::Healthy, true, 0));
    assert_eq!(observe(6, false), (TrackerState::Healthy, false, 1));
    assert_eq!(observe(7, false), (TrackerState::Unhealthy, true, 2));
    assert_eq!(observe(8, true), (TrackerState::Unhealthy, false, 0));
    assert_eq!(observe(9, true), (TrackerState::Healthy, true, 0));
}

#[test]
fn without_a_liveness_probe_nothing_is_due() {
    let mut driver = ProbeDriver::start(
        1,
        7,
        false,
        Duration::from_secs(1),
        Duration::from_secs(1),
        Duration::zero(),
    );
    driver.step(DriverEvent::UseLiveness { now: Duration::zero() });
    assert_eq!(driver.due_at(), None);
    assert_eq!(driver.step(DriverEvent::Due), DriverAction::Wait);
}
