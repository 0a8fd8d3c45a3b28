//! One epoch of a core: how it is launched, what its monitor does, and how it is
//! brought to an end.

use std::sync::Arc;

use vstd::prelude::*;
use vstd::string::*;

use crate::error::Error;
use crate::health::driver::ProbeObservation;
use crate::health::policy::HealthPolicy;
use crate::health::probe;
use crate::health::probe::{ProbeHandle, ProbePhase, ProbeResult};
use crate::health::tracker;
use crate::health::tracker::{HealthTracker, TrackerState, TrackerUpdate};
use crate::kind;
use crate::kind::{controller_args, run_args, with_core_env};
use crate::log::frame;
use crate::log::parser;
use crate::log::parser::{error_summary, format_tail};
use crate::metadata::log::LogFrame;
use crate::path;
use crate::path::parent;
use crate::platform::Platform;
use crate::process::command::Command;
use crate::process::error as process;
use crate::process::error::ProcessError;
use crate::process::pid_file::EpochPidFile;
use crate::spec::{InstanceSpec, ResolvedController};
use crate::state;
use crate::state::{
    HealthState, HealthStatus, InstanceState, InstanceStatus, StopReason,
};
use crate::text;
use crate::time;
use crate::time::Duration;

verus! {

// ---------------------------------------------------------------------------
// Launching
// ---------------------------------------------------------------------------

/// What an instance is made of.
pub struct InstanceBuilder {
    pub spec: Arc<InstanceSpec>,
    pub epoch: u64,
    pub controller: Arc<ResolvedController>,
    pub readiness_probe: Option<ProbeHandle>,
    pub liveness_probe: Option<ProbeHandle>,
    pub liveness_with_readiness: bool,
}

/// The probes of an instance. Without a readiness probe of its own it is asked
/// for its version.
#[derive(PartialEq, Eq)]
pub struct ProbePlan {
    pub readiness: ProbeHandle,
    pub liveness: Option<ProbeHandle>,
}

impl InstanceBuilder {
    pub fn new(spec: Arc<InstanceSpec>, epoch: u64, controller: Arc<ResolvedController>) -> (r:
        InstanceBuilder)
        ensures
            r == (InstanceBuilder {
                spec,
                epoch,
                controller,
                readiness_probe: None,
                liveness_probe: None,
                liveness_with_readiness: false,
            }),
    {
        InstanceBuilder {
            spec,
            epoch,
            controller,
            readiness_probe: None,
            liveness_probe: None,
            liveness_with_readiness: false,
        }
    }

    pub fn readiness_probe(self, probe: ProbeHandle) -> (r: InstanceBuilder)
        ensures
            r == (InstanceBuilder { readiness_probe: Some(probe), ..self }),
    {
        InstanceBuilder { readiness_probe: Some(probe), ..self }
    }

    pub fn liveness_probe(self, probe: ProbeHandle) -> (r: InstanceBuilder)
        ensures
            r == (InstanceBuilder {
                liveness_probe: Some(probe),
                liveness_with_readiness: false,
                ..self
            }),
    {
        InstanceBuilder { liveness_probe: Some(probe), liveness_with_readiness: false, ..self }
    }

    pub fn liveness_with_readiness_probe(self) -> (r: InstanceBuilder)
        ensures
            r == (InstanceBuilder { liveness_probe: None, liveness_with_readiness: true, ..self }),
    {
        InstanceBuilder { liveness_probe: None, liveness_with_readiness: true, ..self }
    }

    /// Nothing is launched without its configuration and its binary.
    pub fn check_artifacts(&self, config_exists: bool, binary_exists: bool) -> (r: Result<
        (),
        Error,
    >)
        ensures
            if !config_exists {
                r == Err::<(), Error>(Error::ConfigNotFound(self.spec.config_path))
            } else if !binary_exists {
                r == Err::<(), Error>(Error::BinaryNotFound(self.spec.core.binary_path))
            } else {
                r is Ok
            },
    {
        if !config_exists {
            return Err(Error::ConfigNotFound(self.spec.config_path.clone()));
        }
        if !binary_exists {
            return Err(Error::BinaryNotFound(self.spec.core.binary_path.clone()));
        }
        Ok(())
    }

    /// The probes that the instance is watched with.
    pub fn probes(&self) -> (r: ProbePlan)
        ensures
            match self.readiness_probe {
                Some(probe) => r.readiness == probe,
                None => r.readiness.name() == "controller-version"@,
            },
            r.liveness == (if self.liveness_with_readiness {
                Some(r.readiness)
            } else {
                self.liveness_probe
            }),
    {
        let readiness = match &self.readiness_probe {
            Some(probe) => probe.copy(),
            None => ProbeHandle::new("controller-version"),
        };
        let liveness = if self.liveness_with_readiness {
            Some(readiness.copy())
        } else {
            match &self.liveness_probe {
                Some(probe) => Some(probe.copy()),
                None => None,
            }
        };
        ProbePlan { readiness, liveness }
    }
}

/// What an epoch runs, given the directory of its configuration.
pub open spec fn command_of(
    spec: InstanceSpec,
    epoch: u64,
    controller: ResolvedController,
    platform: Platform,
    config_dir: Seq<char>,
    c: Command,
) -> bool {
    &&& c.program@ == spec.core.binary_path@
    &&& text::strings(c.args@) == kind::launch_args(
        spec.core.kind,
        spec.working_dir@,
        spec.config_path@,
    ) + kind::endpoint_args(spec.core.kind, controller.host)
    &&& c.current_dir == Some(spec.working_dir)
    &&& kind::pairs(c.envs@) == kind::core_env(platform, spec.working_dir@, config_dir)
    &&& match spec.pid_file {
        None => c.epoch_pid_file is None,
        Some(path) => c.epoch_pid_file matches Some(file) && file.path_text() == path@
            && file.epoch_number() == epoch && file.config_text() == spec.config_path@,
    }
}

/// The command of an epoch, with the directory of its configuration where it has
/// one; else the working directory stands for it.
pub fn command_in(
    spec: &InstanceSpec,
    epoch: u64,
    controller: &ResolvedController,
    platform: Platform,
    config_dir: Option<&str>,
) -> (r: Command)
    ensures
        command_of(
            *spec,
            epoch,
            *controller,
            platform,
            (match config_dir {
                Some(dir) => dir@,
                None => spec.working_dir@,
            }),
            r,
        ),
{
    let dir = match config_dir {
        Some(dir) => dir,
        None => spec.working_dir.as_str(),
    };
    let base = Command::new(spec.core.binary_path.as_str());
    let first = run_args(spec.core.kind, spec.working_dir.as_str(), spec.config_path.as_str());
    let second = controller_args(spec.core.kind, &controller.host);
    let ghost one = first@;
    let ghost two = second@;
    let base = base.args(first).args(second);
    assert(text::strings(base.args@) =~= text::strings(one) + text::strings(two));
    let base = base.current_dir(spec.working_dir.clone());
    let command = with_core_env(base, platform, spec.working_dir.as_str(), dir);
    match &spec.pid_file {
        None => command,
        Some(path) => command.epoch_pid_file(
            EpochPidFile::new(path.clone(), epoch, spec.config_path.clone()),
        ),
    }
}

pub fn build_command(
    spec: &InstanceSpec,
    epoch: u64,
    controller: &ResolvedController,
    platform: Platform,
) -> (r: Command)
    ensures
        exists|dir: Option<Seq<char>>|
            #[trigger] path::directory_of(spec.config_path@, dir) && command_of(
                *spec,
                epoch,
                *controller,
                platform,
                match dir {
                    Some(dir) => dir,
                    None => spec.working_dir@,
                },
                r,
            ),
        forall|dir: Seq<char>, name: Seq<char>|
            #[trigger] path::file_in(dir, name, spec.config_path@) ==> command_of(
                *spec,
                epoch,
                *controller,
                platform,
                dir,
                r,
            ),
{
    let dir = parent(spec.config_path.as_str());
    assert(path::directory_of(spec.config_path@, path::part(dir)));
    match &dir {
        Some(dir) => {
            let r = command_in(spec, epoch, controller, platform, Some(dir.as_str()));
            assert(command_of(*spec, epoch, *controller, platform, dir@, r));
            r
        },
        None => {
            let r = command_in(spec, epoch, controller, platform, None);
            assert(command_of(*spec, epoch, *controller, platform, spec.working_dir@, r));
            r
        },
    }
}

// ---------------------------------------------------------------------------
// What is kept of the log
// ---------------------------------------------------------------------------

/// How many records are kept for diagnostics.
pub const LOG_TAIL_FRAMES: usize = 32;

/// The last records of an epoch.
pub struct LogTail {
    frames: Vec<Arc<LogFrame>>,
}

/// The last `n` of a sequence.
pub open spec fn last_n<A>(s: Seq<A>, n: int) -> Seq<A> {
    if s.len() <= n {
        s
    } else {
        s.subrange(s.len() - n, s.len() as int)
    }
}

impl LogTail {
    #[verifier::type_invariant]
    spec fn wf(self) -> bool {
        self.frames@.len() <= LOG_TAIL_FRAMES
    }

    pub closed spec fn view(&self) -> Seq<Arc<LogFrame>> {
        self.frames@
    }

    pub fn new() -> (r: LogTail)
        ensures
            r@.len() == 0,
    {
        LogTail { frames: Vec::new() }
    }

    /// Keeps one more record, and drops the oldest one where there is no room.
    pub fn push(self, frame: Arc<LogFrame>) -> (r: LogTail)
        ensures
            r@ == last_n(self@.push(frame), LOG_TAIL_FRAMES as int),
    {
        proof {
            use_type_invariant(&self);
        }
        let mut frames = self.frames;
        let ghost before = frames@;
        if frames.len() == LOG_TAIL_FRAMES {
            frames.remove(0);
        }
        frames.push(frame);
        assert(frames@ =~= last_n(before.push(frame), LOG_TAIL_FRAMES as int));
        LogTail { frames }
    }

    pub fn frames(&self) -> (r: &Vec<Arc<LogFrame>>)
        ensures
            r@ == self@,
            r@.len() <= LOG_TAIL_FRAMES,
    {
        proof {
            use_type_invariant(self);
        }
        &self.frames
    }

    pub fn diagnostics(&self) -> (r: String)
        ensures
            r@ == parser::tail_text(parser::frame_views(self@)),
    {
        format_tail(self.frames.as_slice())
    }

    /// What is said of a failure: the worst that the core complained of, or else
    /// what it printed, or else the given words.
    pub fn failure_summary(&self, fallback: &str) -> (r: String)
        ensures
            r@ == failure_words(parser::frame_views(self@), fallback@),
    {
        match error_summary(self.frames.as_slice()) {
            Some(words) => words,
            None => {
                let tail = self.diagnostics();
                if tail.as_str().is_empty() {
                    fallback.to_owned()
                } else {
                    tail
                }
            },
        }
    }
}

pub open spec fn failure_words(frames: Seq<frame::FrameView>, fallback: Seq<char>) -> Seq<char> {
    match parser::summary(frames) {
        Some(words) => words,
        None => {
            let tail = parser::tail_text(frames);
            if tail.len() == 0 {
                fallback
            } else {
                tail
            }
        },
    }
}

/// What a run of records leaves in the tail.
pub open spec fn kept(tail: Seq<Arc<LogFrame>>, more: Seq<Arc<LogFrame>>) -> Seq<Arc<LogFrame>>
    decreases more.len(),
{
    if more.len() == 0 {
        tail
    } else {
        last_n(kept(tail, more.drop_last()).push(more.last()), LOG_TAIL_FRAMES as int)
    }
}

/// The tail always holds the latest records.
pub proof fn law_tail_is_the_latest(more: Seq<Arc<LogFrame>>)
    ensures
        kept(seq![], more) == last_n(more, LOG_TAIL_FRAMES as int),
    decreases more.len(),
{
    if more.len() > 0 {
        law_tail_is_the_latest(more.drop_last());
        let before = last_n(more.drop_last(), LOG_TAIL_FRAMES as int);
        assert(last_n(before.push(more.last()), LOG_TAIL_FRAMES as int) =~= last_n(
            more,
            LOG_TAIL_FRAMES as int,
        ));
    } else {
        assert(kept(seq![], more) =~= last_n(more, LOG_TAIL_FRAMES as int));
    }
}

// ---------------------------------------------------------------------------
// Waiting for readiness
// ---------------------------------------------------------------------------

/// What is seen while an instance is waited for.
#[derive(Debug)]
pub enum ReadyEvent {
    State(InstanceState),
    ChannelClosed,
    TimedOut,
}

/// What a wait for readiness comes to. None: go on waiting.
pub open spec fn ready_outcome(
    event: ReadyEvent,
    frames: Seq<frame::FrameView>,
    r: Option<Result<(), Error>>,
) -> bool {
    match event {
        ReadyEvent::State(InstanceState::Running { .. }) => r matches Some(Ok(())),
        ReadyEvent::State(InstanceState::Stopped(reason)) => r matches Some(
            Err(Error::StartupFailed { stderr_tail }),
        ) && stderr_tail@ == failure_words(frames, state::stop_text(reason)),
        ReadyEvent::State(_) => r is None,
        ReadyEvent::ChannelClosed => r matches Some(Err(Error::StartupFailed { stderr_tail }))
            && stderr_tail@ == failure_words(frames, "instance state channel closed"@),
        ReadyEvent::TimedOut => r matches Some(Err(Error::StartupTimeout { stderr_tail }))
            && stderr_tail@ == failure_words(
            frames,
            "controller readiness probe did not become healthy"@,
        ),
    }
}

pub fn ready_step(event: ReadyEvent, tail: &LogTail) -> (r: Option<Result<(), Error>>)
    ensures
        ready_outcome(event, parser::frame_views(tail@), r),
{
    match event {
        ReadyEvent::State(InstanceState::Running { .. }) => Some(Ok(())),
        ReadyEvent::State(InstanceState::Stopped(reason)) => Some(
            Err(
                Error::StartupFailed {
                    stderr_tail: tail.failure_summary(reason.text().as_str()),
                },
            ),
        ),
        ReadyEvent::State(_) => None,
        ReadyEvent::ChannelClosed => Some(
            Err(
                Error::StartupFailed {
                    stderr_tail: tail.failure_summary("instance state channel closed"),
                },
            ),
        ),
        ReadyEvent::TimedOut => Some(
            Err(
                Error::StartupTimeout {
                    stderr_tail: tail.failure_summary(
                        "controller readiness probe did not become healthy",
                    ),
                },
            ),
        ),
    }
}

// ---------------------------------------------------------------------------
// Probing on demand
// ---------------------------------------------------------------------------

/// How a request for a probe ended.
#[derive(Debug)]
pub enum ProbeReply {
    Answered(ProbeResult),
    NoMonitor,
    NoDriver,
}

/// Only reconciliation can be probed for on demand. None: ask the monitor.
pub fn probe_request(phase: ProbePhase) -> (r: Option<ProbeResult>)
    ensures
        match r {
            None => phase is Reconcile,
            Some(result) => !(phase is Reconcile) && probe::says(
                result,
                "only reconciliation probes can be requested directly"@,
            ),
        },
{
    if phase != ProbePhase::Reconcile {
        return Some(
            ProbeResult::unhealthy("only reconciliation probes can be requested directly"),
        );
    }
    None
}

pub fn probe_answer(reply: ProbeReply) -> (r: ProbeResult)
    ensures
        match reply {
            ProbeReply::Answered(result) => r == result,
            ProbeReply::NoMonitor => probe::says(r, "instance probe monitor is not running"@),
            ProbeReply::NoDriver => probe::says(r, "instance probe driver stopped"@),
        },
{
    match reply {
        ProbeReply::Answered(result) => result,
        ProbeReply::NoMonitor => ProbeResult::unhealthy("instance probe monitor is not running"),
        ProbeReply::NoDriver => ProbeResult::unhealthy("instance probe driver stopped"),
    }
}

/// What a request is answered while there is no driver to try a probe.
pub fn not_ready_answer() -> (r: ProbeResult)
    ensures
        probe::says(r, "instance probe driver is not ready"@),
{
    ProbeResult::unhealthy("instance probe driver is not ready")
}

// ---------------------------------------------------------------------------
// The end of an instance
// ---------------------------------------------------------------------------

/// How the supervisor of an instance was stopped.
#[derive(Debug)]
pub enum SupervisorEnd {
    /// There was none.
    Absent,
    Stopped,
    Failed(ProcessError),
    TimedOut,
}

/// What became of the process that a pid record names.
#[derive(Debug, Clone, Copy, PartialEq, Eq, Structural)]
pub enum OrphanReapOutcome {
    NotFound,
    AlreadyExited,
    Killed,
}

/// What is known of the end of the supervisor, in words where it failed.
pub open spec fn stop_words(end: SupervisorEnd, timeout: nat) -> Option<Seq<char>> {
    match end {
        SupervisorEnd::Absent => None,
        SupervisorEnd::Stopped => None,
        SupervisorEnd::Failed(ProcessError::AlreadyExited) => None,
        SupervisorEnd::Failed(error) => Some(
            "supervisor stop failed: "@ + process::process_error_text(error),
        ),
        SupervisorEnd::TimedOut => Some(
            "supervisor stop exceeded "@ + time::span_text(timeout),
        ),
    }
}

/// What follows the end of the supervisor and of the monitor.
#[derive(Debug)]
pub enum StopStep {
    /// The process is dead; `publish` says that this has to be made known.
    Dead { publish: bool },
    /// The process that the record names has to be dealt with first.
    Reap { error: String, dir: String },
    Fail(Error),
}

/// An instance whose end was seen need not be stopped.
pub fn already_dead(state: &InstanceState) -> (r: bool)
    ensures
        r == (state is Stopped),
{
    state.is_terminal()
}

/// The process is dead where its supervisor stopped and its end was seen, by the
/// monitor or in its state. Else its record decides, if it has one.
pub open spec fn stop_outcome(
    end: SupervisorEnd,
    timeout: nat,
    monitor_confirmed: bool,
    terminal: bool,
    recorded: bool,
    dir: Option<Seq<char>>,
    r: StopStep,
) -> bool {
    let words = stop_words(end, timeout);
    let error = match words {
        Some(words) => words,
        None => "instance monitor did not confirm termination"@,
    };
    if words is None && (monitor_confirmed || terminal) {
        r == (StopStep::Dead { publish: !terminal })
    } else if !recorded {
        r matches StopStep::Fail(Error::StopUnconfirmed(m)) && m@ == error
    } else {
        match dir {
            None => r matches StopStep::Fail(Error::StopUnconfirmed(m)) && m@
                == "runtime config has no parent directory"@,
            Some(dir) => r matches StopStep::Reap { error: m, dir: d } && m@ == error && d@ == dir,
        }
    }
}

/// What follows the end of the supervisor and of the monitor of an instance that runs
/// on the given configuration.
pub fn stop_step(
    end: SupervisorEnd,
    timeout: Duration,
    monitor_confirmed: bool,
    terminal: bool,
    recorded: bool,
    config_path: &str,
) -> (r: StopStep)
    ensures
        exists|dir: Option<Seq<char>>|
            path::directory_of(config_path@, dir) && #[trigger] stop_outcome(
                end,
                timeout@,
                monitor_confirmed,
                terminal,
                recorded,
                dir,
                r,
            ),
{
    let dir = parent(config_path);
    let ghost d = path::part(dir);
    let r = stop_step_in(end, timeout, monitor_confirmed, terminal, recorded, dir);
    assert(stop_outcome(end, timeout@, monitor_confirmed, terminal, recorded, d, r));
    r
}

/// What follows where the configuration is in the given directory, if in any.
pub fn stop_step_in(
    end: SupervisorEnd,
    timeout: Duration,
    monitor_confirmed: bool,
    terminal: bool,
    recorded: bool,
    dir: Option<String>,
) -> (r: StopStep)
    ensures
        stop_outcome(end, timeout@, monitor_confirmed, terminal, recorded, path::part(dir), r),
{
    let words = match end {
        SupervisorEnd::Absent => None,
        SupervisorEnd::Stopped => None,
        SupervisorEnd::Failed(ProcessError::AlreadyExited) => None,
        SupervisorEnd::Failed(error) => {
            let mut words = "supervisor stop failed: ".to_owned();
            words.append(error.message().as_str());
            Some(words)
        },
        SupervisorEnd::TimedOut => {
            let mut words = "supervisor stop exceeded ".to_owned();
            words.append(timeout.text().as_str());
            Some(words)
        },
    };
    if words.is_none() && (monitor_confirmed || terminal) {
        return StopStep::Dead { publish: !terminal };
    }
    let error = match words {
        Some(words) => words,
        None => "instance monitor did not confirm termination".to_owned(),
    };
    if !recorded {
        return StopStep::Fail(Error::StopUnconfirmed(error));
    }
    match dir {
        None => StopStep::Fail(
            Error::StopUnconfirmed("runtime config has no parent directory".to_owned()),
        ),
        Some(dir) => StopStep::Reap { error, dir },
    }
}

/// What the record of the process decided.
pub open spec fn reap_outcome(
    error: Seq<char>,
    reaped: Result<OrphanReapOutcome, ProcessError>,
    terminal: bool,
    r: StopStep,
) -> bool {
    match reaped {
        Err(e) => r matches StopStep::Fail(Error::StopUnconfirmed(m)) && m@ == error
            + "; epoch identity reaper failed: "@ + process::process_error_text(e),
        Ok(outcome) => if outcome is AlreadyExited || outcome is Killed || (outcome is NotFound
            && terminal) {
            r == (StopStep::Dead { publish: !terminal })
        } else {
            r matches StopStep::Fail(Error::StopUnconfirmed(m)) && m@ == error
        },
    }
}

pub fn reap_step(
    error: String,
    reaped: Result<OrphanReapOutcome, ProcessError>,
    terminal: bool,
) -> (r: StopStep)
    ensures
        reap_outcome(error@, reaped, terminal, r),
{
    match reaped {
        Err(e) => {
            let mut words = error;
            words.append("; epoch identity reaper failed: ");
            words.append(e.message().as_str());
            StopStep::Fail(Error::StopUnconfirmed(words))
        },
        Ok(OrphanReapOutcome::AlreadyExited) | Ok(OrphanReapOutcome::Killed) => StopStep::Dead {
            publish: !terminal,
        },
        Ok(OrphanReapOutcome::NotFound) => {
            if terminal {
                StopStep::Dead { publish: !terminal }
            } else {
                StopStep::Fail(Error::StopUnconfirmed(error))
            }
        },
    }
}

/// A process is called dead only on evidence: its supervisor stopped and its end
/// was seen, or the process that its record names is gone.
pub proof fn law_death_needs_evidence(
    end: SupervisorEnd,
    timeout: nat,
    monitor_confirmed: bool,
    terminal: bool,
    recorded: bool,
    dir: Option<Seq<char>>,
    first: StopStep,
    reaped: Result<OrphanReapOutcome, ProcessError>,
    second: StopStep,
)
    requires
        stop_outcome(end, timeout, monitor_confirmed, terminal, recorded, dir, first),
        first matches StopStep::Reap { error, .. } ==> reap_outcome(error@, reaped, terminal, second),
    ensures
        first is Dead ==> monitor_confirmed || terminal,
        first is Reap && second is Dead ==> reaped == Ok::<OrphanReapOutcome, ProcessError>(
            OrphanReapOutcome::AlreadyExited,
        ) || reaped == Ok::<OrphanReapOutcome, ProcessError>(OrphanReapOutcome::Killed)
            || terminal,
{
}

// ---------------------------------------------------------------------------
// The monitor
// ---------------------------------------------------------------------------

pub open spec fn mapped(state: TrackerState) -> HealthState {
    match state {
        TrackerState::Starting => HealthState::Starting,
        TrackerState::Healthy => HealthState::Healthy,
        TrackerState::Unhealthy => HealthState::Unhealthy,
    }
}

/// How an instance is after an answer of a probe.
pub open spec fn health_after(
    previous: Option<HealthStatus>,
    update: TrackerUpdate,
    observed_at: i64,
) -> HealthStatus {
    HealthStatus {
        state: mapped(update.state),
        changed_at: if update.transitioned {
            observed_at
        } else {
            match previous {
                Some(h) => h.changed_at,
                None => observed_at,
            }
        },
        consecutive_failures: update.consecutive_failures,
        last_error: update.last_error,
        last_success_at: if update.state is Healthy {
            Some(observed_at)
        } else {
            match previous {
                Some(h) => h.last_success_at,
                None => None,
            }
        },
    }
}

pub fn publish_health(
    previous: &Option<HealthStatus>,
    update: TrackerUpdate,
    observed_at: i64,
) -> (r: HealthStatus)
    ensures
        r == health_after(*previous, update, observed_at),
{
    let state = match update.state {
        TrackerState::Starting => HealthState::Starting,
        TrackerState::Healthy => HealthState::Healthy,
        TrackerState::Unhealthy => HealthState::Unhealthy,
    };
    let changed_at: i64 = if update.transitioned {
        observed_at
    } else {
        match previous {
            Some(h) => h.changed_at,
            None => observed_at,
        }
    };
    let last_success_at = if state == HealthState::Healthy {
        Some(observed_at)
    } else {
        match previous {
            Some(h) => h.last_success_at,
            None => None,
        }
    };
    HealthStatus {
        state,
        changed_at,
        consecutive_failures: update.consecutive_failures,
        last_error: update.last_error,
        last_success_at,
    }
}

/// What the monitor of an instance hears.
#[derive(Debug)]
pub enum MonitorEvent {
    Cancelled,
    Started { pid: u32, now: Duration, now_ms: i64 },
    Ready,
    Restarting { attempt: u32 },
    GaveUp,
    /// The supervisor stopped, or nothing more is heard of it.
    Ended { by_user: bool },
    /// Anything else that the supervisor tells.
    Other,
    ProbeAsked,
    Observed(ProbeObservation),
}

/// What the monitor of an instance does.
#[derive(Debug, Clone, Copy, PartialEq, Eq, Structural)]
pub enum MonitorAction {
    Wait,
    /// Stop the old driver, if there is one, and start one for this run.
    StartDriver { run_id: u64, pid: u32 },
    UseLiveness,
    AskDriver,
    AnswerNotReady,
    AcknowledgeReady { pid: u32 },
    End,
}

/// The monitor of an instance.
pub struct Monitor {
    pub policy: HealthPolicy,
    pub run_id: u64,
    pub pid: u32,
    pub tracker: Option<HealthTracker>,
    pub has_driver: bool,
    pub status: InstanceStatus,
}

pub open spec fn next_run(id: u64) -> u64 {
    if id == u64::MAX {
        id
    } else {
        (id + 1) as u64
    }
}

/// Everything but the status is the same.
pub open spec fn same_run(a: Monitor, b: Monitor) -> bool {
    a.policy == b.policy && a.run_id == b.run_id && a.pid == b.pid && a.tracker == b.tracker
        && a.has_driver == b.has_driver
}

/// An answer belongs to the current run.
pub open spec fn current(m: Monitor, o: ProbeObservation) -> bool {
    o.run_id == m.run_id && o.pid == m.pid && m.tracker is Some
}

/// How the monitor goes on.
pub open spec fn monitor_step(
    pre: Monitor,
    event: MonitorEvent,
    post: Monitor,
    action: MonitorAction,
) -> bool {
    match event {
        MonitorEvent::Cancelled => post == pre && action is End,
        MonitorEvent::Started { pid, now, now_ms } => {
            &&& post.policy == pre.policy
            &&& post.run_id == next_run(pre.run_id)
            &&& post.pid == pid
            &&& post.tracker matches Some(t) && t@ == (tracker::TrackerView {
                policy: pre.policy@,
                started_at: now@,
                grace_ended: false,
                state: TrackerState::Starting,
                failures: 0,
                successes: 0,
                last_error: None,
            })
            &&& post.has_driver
            &&& post.status.state is Starting
            &&& post.status.health matches Some(h) && h.state is Starting && h.changed_at == now_ms
                && h.consecutive_failures == 0 && h.last_error is None && h.last_success_at is None
            &&& action == (MonitorAction::StartDriver { run_id: post.run_id, pid })
        },
        MonitorEvent::Ready => {
            &&& same_run(pre, post)
            &&& post.status == (InstanceStatus {
                state: InstanceState::Running { pid: pre.pid },
                ..pre.status
            })
            &&& action == (if pre.has_driver {
                MonitorAction::UseLiveness
            } else {
                MonitorAction::Wait
            })
        },
        MonitorEvent::Restarting { attempt } => {
            &&& same_run(pre, post)
            &&& post.status == (InstanceStatus {
                state: InstanceState::Restarting { attempt },
                ..pre.status
            })
            &&& action is Wait
        },
        MonitorEvent::GaveUp => {
            &&& same_run(pre, post)
            &&& post.status.state matches InstanceState::Stopped(StopReason::Error(m)) && m@
                == "restart policy exhausted"@
            &&& post.status.health is None
            &&& action is End
        },
        MonitorEvent::Ended { by_user } => {
            &&& same_run(pre, post)
            &&& post.status == (InstanceStatus {
                state: InstanceState::Stopped(
                    if by_user {
                        StopReason::User
                    } else {
                        StopReason::Finished
                    },
                ),
                health: None,
            })
            &&& action is End
        },
        MonitorEvent::Other => post == pre && action is Wait,
        MonitorEvent::ProbeAsked => post == pre && action == (if pre.has_driver {
            MonitorAction::AskDriver
        } else {
            MonitorAction::AnswerNotReady
        }),
        MonitorEvent::Observed(o) => if !current(pre, o) {
            post == pre && action is Wait
        } else {
            let after = tracker::observed(pre.tracker->0@, o.completed_at@, o.result);
            &&& post.policy == pre.policy
            &&& post.run_id == pre.run_id
            &&& post.pid == pre.pid
            &&& post.has_driver == pre.has_driver
            &&& post.tracker matches Some(t) && t@ == after
            &&& post.status.state == pre.status.state
            &&& post.status.health matches Some(h) && exists|update: TrackerUpdate|
                {
                    &&& update.state == after.state
                    &&& update.transitioned == (pre.tracker->0@.state != after.state)
                    &&& update.consecutive_failures == after.failures
                    &&& state::error_view(update.last_error) == after.last_error
                    &&& h == #[trigger] health_after(
                        pre.status.health,
                        update,
                        o.completed_at_ms,
                    )
                }
            &&& action == (if o.phase is Readiness && after.state is Healthy {
                MonitorAction::AcknowledgeReady { pid: pre.pid }
            } else {
                MonitorAction::Wait
            })
        },
    }
}

impl Monitor {
    pub fn new(policy: HealthPolicy) -> (r: Monitor)
        ensures
            r == (Monitor {
                policy,
                run_id: 0,
                pid: 0,
                tracker: None,
                has_driver: false,
                status: InstanceStatus { state: InstanceState::Starting, health: None },
            }),
    {
        Monitor {
            policy,
            run_id: 0,
            pid: 0,
            tracker: None,
            has_driver: false,
            status: InstanceStatus::initial(),
        }
    }

    pub fn step(&mut self, event: MonitorEvent) -> (r: MonitorAction)
        ensures
            monitor_step(*old(self), event, *final(self), r),
    {
        match event {
            MonitorEvent::Cancelled => MonitorAction::End,
            MonitorEvent::Started { pid, now, now_ms } => {
                self.run_id = self.run_id.saturating_add(1);
                self.pid = pid;
                self.tracker = Some(HealthTracker::new(self.policy, now));
                self.status = InstanceStatus {
                    state: InstanceState::Starting,
                    health: Some(HealthStatus::starting(now_ms)),
                };
                self.has_driver = true;
                MonitorAction::StartDriver { run_id: self.run_id, pid }
            },
            MonitorEvent::Ready => {
                self.status.state = InstanceState::Running { pid: self.pid };
                if self.has_driver {
                    MonitorAction::UseLiveness
                } else {
                    MonitorAction::Wait
                }
            },
            MonitorEvent::Restarting { attempt } => {
                self.status.state = InstanceState::Restarting { attempt };
                MonitorAction::Wait
            },
            MonitorEvent::GaveUp => {
                self.status = InstanceStatus {
                    state: InstanceState::Stopped(
                        StopReason::Error("restart policy exhausted".to_owned()),
                    ),
                    health: None,
                };
                MonitorAction::End
            },
            MonitorEvent::Ended { by_user } => {
                let reason = if by_user {
                    StopReason::User
                } else {
                    StopReason::Finished
                };
                self.status = InstanceStatus {
                    state: InstanceState::Stopped(reason),
                    health: None,
                };
                MonitorAction::End
            },
            MonitorEvent::Other => MonitorAction::Wait,
            MonitorEvent::ProbeAsked => {
                if self.has_driver {
                    MonitorAction::AskDriver
                } else {
                    MonitorAction::AnswerNotReady
                }
            },
            MonitorEvent::Observed(o) => self.observe(o),
        }
    }

    fn observe(&mut self, o: ProbeObservation) -> (r: MonitorAction)
        ensures
            monitor_step(*old(self), MonitorEvent::Observed(o), *final(self), r),
    {
        if o.run_id != self.run_id || o.pid != self.pid {
            return MonitorAction::Wait;
        }
        let mut held: Option<HealthTracker> = None;
        core::mem::swap(&mut held, &mut self.tracker);
        match held {
            None => MonitorAction::Wait,
            Some(tracker) => {
                let mut tracker = tracker;
                let update = tracker.observe(o.completed_at, &o.result);
                self.tracker = Some(tracker);
                let ready = o.phase == ProbePhase::Readiness && update.state
                    == TrackerState::Healthy;
                let ghost seen = update;
                let health = publish_health(&self.status.health, update, o.completed_at_ms);
                assert(health == health_after(self.status.health, seen, o.completed_at_ms));
                self.status.health = Some(health);
                if ready {
                    MonitorAction::AcknowledgeReady { pid: self.pid }
                } else {
                    MonitorAction::Wait
                }
            },
        }
    }
}

/// An answer that belongs to an earlier run changes nothing.
pub proof fn law_stale_answers_are_ignored(
    pre: Monitor,
    o: ProbeObservation,
    post: Monitor,
    action: MonitorAction,
)
    requires
        monitor_step(pre, MonitorEvent::Observed(o), post, action),
        o.run_id != pre.run_id || o.pid != pre.pid,
    ensures
        post == pre,
        action is Wait,
{
}

/// An instance is taken for ready only on a healthy answer to a readiness probe of
/// the current run.
pub proof fn law_readiness_needs_a_healthy_probe(
    pre: Monitor,
    event: MonitorEvent,
    post: Monitor,
    action: MonitorAction,
)
    requires
        monitor_step(pre, event, post, action),
        action is AcknowledgeReady,
    ensures
        action == (MonitorAction::AcknowledgeReady { pid: pre.pid }),
        event matches MonitorEvent::Observed(o) && current(pre, o) && o.phase is Readiness && (
        post.tracker matches Some(t) && t@.state is Healthy),
{
}

/// What is published of the health of an instance is what was found: its state is that
/// of the tracker, with the failures that the tracker counted and the error that it
/// kept. The time of the last change moves exactly when the state changed, and that of
/// the last success exactly at one.
pub proof fn law_published_health_is_what_was_found(
    previous: Option<HealthStatus>,
    update: TrackerUpdate,
    observed_at: i64,
)
    ensures
        ({
            let h = health_after(previous, update, observed_at);
            &&& h.state is Unhealthy <==> update.state is Unhealthy
            &&& h.state is Healthy <==> update.state is Healthy
            &&& h.state is Starting <==> update.state is Starting
            &&& h.consecutive_failures == update.consecutive_failures
            &&& h.last_error == update.last_error
            &&& update.transitioned || previous is None ==> h.changed_at == observed_at
            &&& !update.transitioned && previous is Some ==> h.changed_at == previous->0.changed_at
            &&& update.state is Healthy ==> h.last_success_at == Some(observed_at)
            &&& !(update.state is Healthy) && previous is Some ==> h.last_success_at
                == previous->0.last_success_at
            &&& !(update.state is Healthy) && previous is None ==> h.last_success_at is None
        }),
{
}

/// An answer to a probe of the current run is told in full: the published state is the
/// one that the tracker came to, and neither the run nor the state of the process
/// changes by it.
pub proof fn law_answers_are_told(
    pre: Monitor,
    o: ProbeObservation,
    post: Monitor,
    action: MonitorAction,
)
    requires
        monitor_step(pre, MonitorEvent::Observed(o), post, action),
        o.run_id == pre.run_id,
        o.pid == pre.pid,
        pre.tracker is Some,
    ensures
        post.tracker is Some && post.status.health is Some,
        post.status.health->0.state is Unhealthy <==> post.tracker->0@.state is Unhealthy,
        post.status.health->0.state is Healthy <==> post.tracker->0@.state is Healthy,
        post.status.health->0.state is Starting <==> post.tracker->0@.state is Starting,
        post.status.health->0.consecutive_failures == post.tracker->0@.failures,
        post.status.health->0.state is Healthy ==> post.status.health->0.last_success_at == Some(
            o.completed_at_ms,
        ),
        pre.tracker->0@.state != post.tracker->0@.state ==> post.status.health->0.changed_at
            == o.completed_at_ms,
        post.status.state == pre.status.state,
        post.run_id == pre.run_id && post.pid == pre.pid,
{
}

/// A core that was well and fails as often in a row as the policy asks for is shown as
/// unhealthy, and one that succeeds as often is shown as healthy.
pub proof fn law_thresholds_are_shown(
    pre: Monitor,
    o: ProbeObservation,
    post: Monitor,
    action: MonitorAction,
)
    requires
        monitor_step(pre, MonitorEvent::Observed(o), post, action),
        o.run_id == pre.run_id,
        o.pid == pre.pid,
        pre.tracker is Some,
    ensures
        o.result is Unhealthy && pre.tracker->0@.grace_ended && pre.tracker->0@.failures + 1
            >= pre.tracker->0@.policy.failures ==> (post.status.health matches Some(h) && h.state
            is Unhealthy && h.consecutive_failures > 0),
        o.result is Healthy && pre.tracker->0@.successes + 1 >= pre.tracker->0@.policy.successes
            ==> (post.status.health matches Some(h) && h.state is Healthy && h.consecutive_failures
            == 0 && h.last_error is None),
        o.result is Healthy && o.phase is Readiness && pre.tracker->0@.successes + 1
            >= pre.tracker->0@.policy.successes ==> action == (MonitorAction::AcknowledgeReady {
            pid: pre.pid,
        }),
{
}

/// The state of the process is told as the supervisor tells it: a started one is
/// starting anew with its health unknown, a ready one runs under its pid, and one that
/// is gone has no health.
pub proof fn law_the_supervisor_is_told(
    pre: Monitor,
    event: MonitorEvent,
    post: Monitor,
    action: MonitorAction,
)
    requires
        monitor_step(pre, event, post, action),
    ensures
        event matches MonitorEvent::Started { pid, now_ms, .. } ==> post.pid == pid && post.run_id
            >= pre.run_id && (pre.run_id < u64::MAX ==> post.run_id > pre.run_id)
            && post.status.state is Starting && (post.status.health matches Some(h) && h.state
            is Starting && h.changed_at == now_ms && h.consecutive_failures == 0) && action == (
        MonitorAction::StartDriver { run_id: post.run_id, pid }) && (post.tracker matches Some(t)
            && t@.policy == pre.policy@ && t@.state is Starting && t@.failures == 0 && t@.successes
            == 0 && !t@.grace_ended),
        event is Ready ==> post.status.state == (InstanceState::Running { pid: pre.pid })
            && post.status.health == pre.status.health && (pre.has_driver ==> action is UseLiveness),
        event matches MonitorEvent::Restarting { attempt } ==> post.status.state == (
        InstanceState::Restarting { attempt }) && post.status.health == pre.status.health,
        event is GaveUp ==> (post.status.state matches InstanceState::Stopped(r) && r is Error)
            && post.status.health is None && action is End,
        event matches MonitorEvent::Ended { by_user } ==> post.status.state
            == InstanceState::Stopped(
            if by_user {
                StopReason::User
            } else {
                StopReason::Finished
            },
        ) && post.status.health is None && action is End,
        event is Cancelled || event is Other || event is ProbeAsked ==> post == pre,
        event is Cancelled <==> action is End && !(event is GaveUp) && !(event is Ended),
        event is ProbeAsked && pre.has_driver <==> action is AskDriver,
        event is ProbeAsked && !pre.has_driver <==> action is AnswerNotReady,
{
}

/// An instance whose supervisor stopped, or whose process had already exited, is dead
/// where its end was seen. Where it was not, or where the supervisor could not be
/// stopped, the process that its record names is dealt with; without a record nothing
/// is known.
pub proof fn law_stops_are_confirmed(
    end: SupervisorEnd,
    timeout: nat,
    monitor_confirmed: bool,
    terminal: bool,
    recorded: bool,
    dir: Option<Seq<char>>,
    r: StopStep,
)
    requires
        stop_outcome(end, timeout, monitor_confirmed, terminal, recorded, dir, r),
    ensures
        r is Dead <==> (monitor_confirmed || terminal) && (end is Absent || end is Stopped || (
        end matches SupervisorEnd::Failed(e) && e is AlreadyExited)),
        r matches StopStep::Dead { publish } ==> publish == !terminal,
        !(r is Dead) && recorded && dir is Some ==> (r matches StopStep::Reap { error, dir: d }
            && d@ == dir->0),
        !(r is Dead) && (!recorded || dir is None) ==> (r matches StopStep::Fail(e) && e
            is StopUnconfirmed),
{
}

/// A process that had exited or was killed is dead, and one that its record no longer
/// finds is where its end was seen. Of every other one the stop stays unconfirmed,
/// with the reason why it had to be dealt with.
pub proof fn law_reaped_processes_are_dead(
    error: Seq<char>,
    reaped: Result<OrphanReapOutcome, ProcessError>,
    terminal: bool,
    r: StopStep,
)
    requires
        reap_outcome(error, reaped, terminal, r),
    ensures
        r is Dead <==> (reaped matches Ok(outcome) && (outcome is AlreadyExited || outcome is Killed
            || (outcome is NotFound && terminal))),
        r matches StopStep::Dead { publish } ==> publish == !terminal,
        !(r is Dead) ==> (r matches StopStep::Fail(Error::StopUnconfirmed(m)) && m@.len()
            >= error.len() && m@.take(error.len() as int) == error),
{
    if let StopStep::Fail(Error::StopUnconfirmed(m)) = r {
        assert(m@.take(error.len() as int) =~= error);
    }
}

/// A wait ends well exactly when the instance runs, and badly when it stopped, when
/// nothing more is heard of it or when it took too long; until then it goes on.
pub proof fn law_waits_end_as_the_instance_does(
    event: ReadyEvent,
    frames: Seq<frame::FrameView>,
    r: Option<Result<(), Error>>,
)
    requires
        ready_outcome(event, frames, r),
    ensures
        r matches Some(Ok(_)) <==> (event matches ReadyEvent::State(s) && s is Running),
        event matches ReadyEvent::State(s) ==> (s is Starting || s is Restarting || s is Stopping <==> r is None),
        event matches ReadyEvent::State(s) ==> (s is Stopped ==> (r matches Some(Err(e)) && e
            is StartupFailed)),
        event is ChannelClosed ==> (r matches Some(Err(e)) && e is StartupFailed),
        event is TimedOut ==> (r matches Some(Err(e)) && e is StartupTimeout),
{
}

/// What is said of a failure is the worst that the core complained of, else what it
/// printed, and the given words only where it printed nothing.
pub proof fn law_failures_are_told_by_the_core(frames: Seq<frame::FrameView>, fallback: Seq<char>)
    ensures
        parser::summary(frames) matches Some(words) ==> failure_words(frames, fallback) == words,
        parser::summary(frames) is None && parser::tail_text(frames).len() > 0 ==> failure_words(
            frames,
            fallback,
        ) == parser::tail_text(frames),
        parser::summary(frames) is None && parser::tail_text(frames).len() == 0 ==> failure_words(
            frames,
            fallback,
        ) == fallback,
{
}

/// The last records are the ones at the end, in their order, and as many as there is
/// room for.
pub proof fn law_last_records_are_kept<A>(s: Seq<A>, n: int)
    requires
        n >= 0,
    ensures
        last_n(s, n).len() <= n,
        last_n(s, n).len() == s.len() || last_n(s, n).len() == n,
        forall|i: int|
            0 <= i < last_n(s, n).len() ==> #[trigger] last_n(s, n)[i] == s[s.len() - last_n(
                s,
                n,
            ).len() + i],
        LOG_TAIL_FRAMES == 32,
{
}

/// An epoch runs the binary of its spec in the directory of its spec and on the
/// configuration of its spec, and is recorded under its number where it is to be
/// recorded. A local endpoint of a clash-rs core comes last.
pub proof fn law_epochs_run_their_spec(
    spec: InstanceSpec,
    epoch: u64,
    controller: ResolvedController,
    platform: Platform,
    config_dir: Seq<char>,
    c: Command,
)
    requires
        command_of(spec, epoch, controller, platform, config_dir, c),
    ensures
        c.program@ == spec.core.binary_path@,
        c.current_dir == Some(spec.working_dir),
        ({
            let args = text::strings(c.args@);
            let local = spec.core.kind is ClashRust && (controller.host is NamedPipe
                || controller.host is UnixSocket);
            let n = args.len() - (if local {
                2int
            } else {
                0int
            });
            &&& n >= 4
            &&& args[n - 4] == "-d"@
            &&& args[n - 3] == spec.working_dir@
            &&& args[n - 1] == spec.config_path@
            &&& local ==> args[n] == "--controller-ipc"@
            &&& local ==> (controller.host matches crate::clash_api::client::Host::NamedPipe(path) ==> args[n + 1] == path@)
            &&& local ==> (controller.host matches crate::clash_api::client::Host::UnixSocket(path) ==> args[n + 1] == path@)
        }),
        spec.pid_file is Some <==> c.epoch_pid_file is Some,
        spec.pid_file matches Some(path) ==> (c.epoch_pid_file matches Some(file)
            && file.epoch_number() == epoch && file.path_text() == path@ && file.config_text()
            == spec.config_path@),
{
    kind::law_cores_are_told_their_files(spec.core.kind, spec.working_dir@, spec.config_path@);
    kind::law_local_endpoints_are_handed_over(spec.core.kind, controller.host);
}

} // verus!
