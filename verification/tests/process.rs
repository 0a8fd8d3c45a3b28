use nyanpasu_core::process::command::Command;
use nyanpasu_core::process::engine::{
    capture_result, decode, exit_steps, line_text, record_removal_error, spawned_record, Captured,
    ExitStep, ProcessIdentity, RunAction, RunEvent, RunState, SpawnAction, SpawnEvent, SpawnFlow,
};
use nyanpasu_core::process::error::{ProcessError, ProcessOutput};
use nyanpasu_core::process::event::TerminatedPayload;
use nyanpasu_core::process::handle::{control_outcome, wait_outcome, Request};
use nyanpasu_core::process::pid_file::{
    hex_decode, EpochPidFile, EpochPidRecord, RecordError, RecordField,
};
use nyanpasu_core::process::supervisor::{
    acknowledge_ready, stop_result, supervisor_result, time_entropy, Backoff, ReadyLatch,
    RestartPolicy, RestartStormPolicy, SupervisorSettings,
};
use nyanpasu_core::time::Duration;

#[test]
fn defaults_match_design() {
    let command = Command::new("prog");
    assert_eq!(command.event_channel_capacity, 64);
    assert_eq!(command.kill_grace, Duration::from_secs(5));
    assert!(command.hide_window);
    assert!(!command.pipe_stdin);
    assert!(command.encoding.is_none());
    assert!(command.timeout.is_none());
}

#[test]
fn builder_chain_sets_fields() {
    let command = Command::new("prog")
        .arg("-v")
        .args(vec!["a".into(), "b".into()])
        .env("K", "V")
        .current_dir("C:/tmp".into())
        .kill_grace(Duration::from_secs(1))
        .event_channel_capacity(8)
        .timeout(Duration::from_secs(3))
        .pipe_stdin(true)
        .hide_window(false);
    assert_eq!(command.args.len(), 3);
    assert_eq!(command.envs.len(), 1);
    assert_eq!(command.event_channel_capacity, 8);
    assert_eq!(command.timeout, Some(Duration::from_secs(3)));
    assert!(command.pipe_stdin);
    assert!(!command.hide_window);
}

#[test]
fn event_channels_hold_at_least_one_event() {
    assert_eq!(Command::new("prog").event_channel_capacity(0).event_channel_capacity, 1);
}

#[test]
fn process_output_success_only_on_zero() {
    let output = |code| ProcessOutput {
        code,
        stdout: String::new(),
        stderr: String::new(),
    };
    assert!(output(Some(0)).success());
    assert!(!output(Some(1)).success());
    assert!(!output(None).success());
}

#[test]
fn error_display_is_stable() {
    let error = ProcessError::Spawn {
        program: "mihomo".into(),
        message: "not found".into(),
    };
    assert_eq!(error.message(), "failed to spawn `mihomo`: not found");
}

#[test]
fn every_process_error_has_its_words() {
    assert_eq!(ProcessError::Io("x".into()).message(), "io error: x");
    assert_eq!(
        ProcessError::Timeout { after: Duration::from_secs(3) }.message(),
        "process timed out after 3s"
    );
    assert_eq!(ProcessError::AlreadyExited.message(), "process already exited");
    assert_eq!(ProcessError::Engine("x".into()).message(), "process engine error: x");
    assert!(ProcessError::StdinUnavailable.message().starts_with("stdin is not piped"));
}

#[test]
fn published_exits_end_a_wait() {
    let payload = TerminatedPayload { code: Some(0), signal: None };
    assert!(matches!(
        wait_outcome(Some(Ok(payload)), false),
        Some(Ok(p)) if p.code == Some(0)
    ));
    assert!(matches!(
        wait_outcome(Some(Err("x".into())), false),
        Some(Err(ProcessError::Engine(m))) if m == "x"
    ));
    assert!(wait_outcome(None, false).is_none());
    assert!(matches!(wait_outcome(None, true), Some(Err(ProcessError::Engine(_)))));
}

#[test]
fn killing_an_ended_child_is_done() {
    assert!(control_outcome(Request::Kill, None, true).is_ok());
    assert!(matches!(
        control_outcome(Request::GracefulKill, None, false),
        Err(ProcessError::AlreadyExited)
    ));
    assert!(matches!(
        control_outcome(Request::WriteStdin, None, true),
        Err(ProcessError::StdinUnavailable)
    ));
    assert!(control_outcome(Request::WriteStdin, Some(Ok(())), false).is_ok());
}

#[test]
fn captured_output_is_decoded() {
    let output = capture_result(
        "prog",
        &None,
        Captured::Finished { code: Some(0), stdout: b"hi\n".to_vec(), stderr: vec![0xff] },
    )
    .unwrap();
    assert_eq!((output.stdout.as_str(), output.stderr.as_str()), ("hi\n", "\u{fffd}"));
    assert!(matches!(
        capture_result("prog", &None, Captured::SpawnFailed("no".into())),
        Err(ProcessError::Spawn { program, message }) if program == "prog" && message == "no"
    ));
    assert!(matches!(
        capture_result("prog", &None, Captured::TimedOut(Duration::from_secs(1))),
        Err(ProcessError::Timeout { after }) if after == Duration::from_secs(1)
    ));
}

#[test]
fn output_is_decoded_by_its_label() {
    assert_eq!(decode(&[0xd6, 0xd0], &Some("gbk".into())), "中");
    assert_eq!(decode(&[0xe9], &Some("latin1".into())), "é");
    assert_eq!(decode("é".as_bytes(), &Some("no such label".into())), "é");
    assert_eq!(line_text(b"line\r\n".to_vec(), &None), "line");
}

#[test]
fn children_with_a_record_are_reaped_and_recorded() {
    let command = Command::new("prog").epoch_pid_file(EpochPidFile::new(
        "/run/core-1.pid".into(),
        1,
        "/run/config-1.yaml".into(),
    ));
    let (mut flow, action) = SpawnFlow::begin(&command);
    assert!(matches!(action, SpawnAction::Reap { dir } if dir == "/run"));
    assert!(matches!(flow.step(SpawnEvent::Reaped(Ok(()))), SpawnAction::Spawn));
    assert!(matches!(
        flow.step(SpawnEvent::Spawned(Ok(Some(9)))),
        SpawnAction::Record { pid: 9 }
    ));
    assert!(matches!(flow.step(SpawnEvent::Recorded(Ok(()))), SpawnAction::Connect));
    assert!(matches!(
        flow.step(SpawnEvent::Connected { stdout: true, stderr: true }),
        SpawnAction::Supervise { pid: 9 }
    ));
    assert!(matches!(flow.step(SpawnEvent::Discarded), SpawnAction::Ignore));
}

#[test]
fn a_child_that_cannot_be_recorded_is_discarded() {
    let command = Command::new("prog").epoch_pid_file(EpochPidFile::new(
        "/run/core-1.pid".into(),
        1,
        "/run/config-1.yaml".into(),
    ));
    let (mut flow, _) = SpawnFlow::begin(&command);
    flow.step(SpawnEvent::Reaped(Ok(())));
    flow.step(SpawnEvent::Spawned(Ok(Some(9))));
    assert!(matches!(
        flow.step(SpawnEvent::Recorded(Err(ProcessError::Io("full".into())))),
        SpawnAction::KillAndWait
    ));
    assert!(matches!(
        flow.step(SpawnEvent::Discarded),
        SpawnAction::Fail(ProcessError::Io(m)) if m == "full"
    ));
    let (_, action) = SpawnFlow::begin_in(&command, None);
    assert!(matches!(action, SpawnAction::Fail(ProcessError::Engine(_))));
}

#[test]
fn plain_children_are_spawned_at_once() {
    let (mut flow, action) = SpawnFlow::begin(&Command::new("prog"));
    assert!(matches!(action, SpawnAction::Spawn));
    assert!(matches!(
        flow.step(SpawnEvent::Spawned(Err("missing".into()))),
        SpawnAction::Fail(ProcessError::Spawn { program, message })
            if program == "prog" && message == "missing"
    ));
}

#[test]
fn a_graceful_kill_is_followed_by_a_hard_one() {
    let grace = Duration::from_secs(5);
    let mut run = RunState::start(100, Some(Duration::from_nanos(7)), false);
    assert_eq!(run.timeout_at, Some(107));
    assert_eq!(run.step(RunEvent::GracefulKillAsked, 100, grace), RunAction::Terminate);
    assert_eq!(
        run.step(RunEvent::GracefulKillTried { ok: true }, 100, grace),
        RunAction::Nothing
    );
    assert_eq!(run.grace_ends_at, Some(5_000_000_100));
    assert_eq!(run.step(RunEvent::GraceEnded, 5_000_000_100, grace), RunAction::HardKill);
    assert_eq!(run.step(RunEvent::WriteAsked, 0, grace), RunAction::ReplyStdinUnavailable);
    assert_eq!(run.step(RunEvent::KillAsked, 0, grace), RunAction::HardKillAndReply);
    assert_eq!(run.step(RunEvent::TimedOut, 0, grace), RunAction::ReportTimeoutAndKill);
    assert_eq!(run.step(RunEvent::Exited, 0, grace), RunAction::Conclude);
    assert_eq!(run.step(RunEvent::KillAsked, 0, grace), RunAction::Nothing);
}

#[test]
fn ends_are_published_last() {
    let payload = TerminatedPayload { code: Some(1), signal: None };
    let steps = exit_steps(&Ok(payload), true);
    assert_eq!(steps.len(), 4);
    assert!(matches!(steps[0], ExitStep::DrainOutput));
    assert!(matches!(steps[1], ExitStep::SendTerminated(p) if p.code == Some(1)));
    assert!(matches!(steps[2], ExitStep::RemovePidRecord));
    assert!(matches!(steps[3], ExitStep::Publish));
    assert!(matches!(&exit_steps(&Err("x".into()), false)[1], ExitStep::SendError(m) if m == "x"));
    assert_eq!(record_removal_error("x"), "failed to remove epoch pid record: x");
}

fn record() -> EpochPidRecord {
    EpochPidRecord {
        pid: 41,
        epoch: 7,
        executable: "mihomo".into(),
        start_token: 99,
        runtime_config: "/run/config-7.yaml".into(),
    }
}

#[test]
fn records_are_read_back_as_they_were_written() {
    let raw = record().encode();
    assert_eq!(EpochPidRecord::decode(&raw).unwrap(), record());
    assert!(raw.contains("pid=41\n"), "{raw}");
}

#[test]
fn broken_records_are_refused_for_what_is_wrong() {
    let raw = record().encode();
    assert_eq!(EpochPidRecord::decode("pid"), Err(RecordError::MalformedLine));
    assert_eq!(
        EpochPidRecord::decode(&format!("{raw}pid=41\n")),
        Err(RecordError::DuplicateField)
    );
    assert_eq!(EpochPidRecord::decode("pid=41\n"), Err(RecordError::Incomplete));
    assert_eq!(
        EpochPidRecord::decode(&raw.replace("pid=41", "pid=x")),
        Err(RecordError::InvalidField(RecordField::Pid))
    );
    assert_eq!(
        EpochPidRecord::decode(&raw.replace("version=2\n", "version=3\n")),
        Err(RecordError::UnsupportedVersion(3))
    );
    assert_eq!(
        RecordError::UnsupportedVersion(3).message(),
        "unsupported epoch pid record version 3"
    );
    assert_eq!(hex_decode("abc"), Err(RecordError::OddHexLength));
    assert_eq!(hex_decode("zz"), Err(RecordError::InvalidHex));
    assert_eq!(hex_decode("00ff"), Ok(vec![0, 255]));
}

#[test]
fn names_in_a_record_are_utf8() {
    let raw = record().encode();
    assert!(raw.contains("6d69686f6d6f"), "{raw}");
    assert_eq!(
        EpochPidRecord::decode(&raw.replace("6d69686f6d6f", "ff")),
        Err(RecordError::ExecutableNotUtf8)
    );
    assert_eq!(
        EpochPidRecord::decode(&raw.replace("2f72756e2f", "fe")),
        Err(RecordError::RuntimePathNotUtf8)
    );
}

#[test]
fn the_record_of_a_child_names_its_process() {
    let file = EpochPidFile::new("/run/core-7.pid".into(), 7, "/run/config-7.yaml".into());
    assert_eq!((file.path(), file.epoch(), file.runtime_config()), (
        "/run/core-7.pid",
        7,
        "/run/config-7.yaml"
    ));
    let identity = ProcessIdentity { executable: "mihomo".into(), start_token: 99 };
    assert_eq!(spawned_record(41, &file, Some(identity)).unwrap(), record());
    assert!(matches!(
        spawned_record(41, &file, None),
        Err(ProcessError::Engine(m)) if m == "spawned pid 41 disappeared"
    ));
}

#[test]
fn delays_double_up_to_their_limit() {
    let backoff = Backoff::exponential(Duration::from_secs(1), Duration::from_secs(30));
    let delays: Vec<u64> = [0, 1, 4, 5, 31, 1000]
        .iter()
        .map(|n| backoff.delay_for(*n, 0).as_secs())
        .collect();
    assert_eq!(delays, vec![1, 2, 16, 30, 30, 30]);
    let spread = backoff.with_jitter().delay_for(0, 12345);
    assert!(spread.as_nanos() >= 750_000_000 && spread.as_nanos() < 1_250_000_000);
}

#[test]
fn supervisor_defaults() {
    let settings = SupervisorSettings::default();
    assert_eq!(settings.policy, RestartPolicy::OnFailure { max_restarts: 5 });
    assert_eq!(settings.storm_policy.max_failures(), 5);
    assert_eq!(settings.storm_policy.window(), Duration::from_secs(300));
    let least = RestartStormPolicy::new(0, Duration::zero());
    assert_eq!((least.max_failures(), least.window()), (1, Duration::from_millis(1)));
    assert_ne!(time_entropy(1, 0), time_entropy(1, 1));
    assert_eq!(time_entropy(0, 0), 0xE220_A839_7B1D_CDAF);
}

#[test]
fn readiness_is_acknowledged_once() {
    let mut latch = ReadyLatch { pending: 9 };
    assert!(!acknowledge_ready(&mut latch, Some(8), 9, true));
    assert!(!acknowledge_ready(&mut latch, Some(9), 9, false));
    assert!(acknowledge_ready(&mut latch, Some(9), 9, true));
    assert!(!acknowledge_ready(&mut latch, Some(9), 9, true));
}

#[test]
fn stopping_what_exited_is_no_failure() {
    assert!(stop_result(false, Err(ProcessError::AlreadyExited)).is_ok());
    assert!(stop_result(true, Err(ProcessError::StdinUnavailable)).is_ok());
    assert!(stop_result(false, Err(ProcessError::StdinUnavailable)).is_err());
    assert!(matches!(
        supervisor_result(Some("x".into()), Ok(())),
        Err(ProcessError::Engine(m)) if m == "supervisor task failed: x"
    ));
    assert!(supervisor_result(None, Ok(())).is_ok());
}
