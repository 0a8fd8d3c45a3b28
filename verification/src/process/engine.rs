//! The life of one child: how it comes up, what its owner does while it runs,
//! and in which order its end is made known.

use vstd::prelude::*;
use vstd::string::*;

use crate::path;
use crate::path::parent;
use crate::process::command::Command;
use crate::process::error::{ProcessError, ProcessOutput};
use crate::process::event::TerminatedPayload;
use crate::process::pid_file::{EpochPidFile, EpochPidRecord};
use crate::text;
use crate::text::{decode_lossy, u64_to_string};
use crate::time::Duration;

verus! {

// ---------------------------------------------------------------------------
// Coming up
// ---------------------------------------------------------------------------

/// Where the start of a child stands.
#[derive(Debug)]
pub enum SpawnPhase {
    Reaping,
    Spawning,
    Recording { pid: u32 },
    Discarding { error: ProcessError },
    Connecting { pid: u32 },
    Finished,
}

/// What happened while a child was started.
#[derive(Debug)]
pub enum SpawnEvent {
    /// The process that an earlier record names was dealt with.
    Reaped(Result<(), ProcessError>),
    /// The child was started; its pid, where it has one.
    Spawned(Result<Option<u32>, String>),
    /// The record of the child was written.
    Recorded(Result<(), ProcessError>),
    /// The child was killed and waited for.
    Discarded,
    /// The pipes of the child that are there.
    Connected { stdout: bool, stderr: bool },
}

/// What to do next.
#[derive(Debug)]
pub enum SpawnAction {
    /// Deal with the process that an earlier record in the directory names.
    Reap { dir: String },
    Spawn,
    Record { pid: u32 },
    KillAndWait,
    Connect,
    Supervise { pid: u32 },
    Fail(ProcessError),
    /// The event does not belong here.
    Ignore,
}

/// The start of one child.
#[derive(Debug)]
pub struct SpawnFlow {
    program: String,
    recorded: bool,
    phase: SpawnPhase,
}

/// How the start of a child begins, where `dir` is the directory of its pid record.
pub open spec fn spawn_begun(
    command: Command,
    dir: Option<Seq<char>>,
    flow: SpawnFlow,
    action: SpawnAction,
) -> bool {
    &&& flow.program_text() == command.program@
    &&& flow.records() == command.epoch_pid_file is Some
    &&& match (command.epoch_pid_file, dir) {
        (None, _) => flow.phase() is Spawning && action is Spawn,
        (Some(_), Some(dir)) => flow.phase() is Reaping && (action matches SpawnAction::Reap {
            dir: d,
        } && d@ == dir),
        (Some(_), None) => flow.phase() is Finished && (action matches SpawnAction::Fail(
            ProcessError::Engine(m),
        ) && m@ == "epoch pid file has no parent"@),
    }
}

impl SpawnFlow {
    pub closed spec fn phase(&self) -> SpawnPhase {
        self.phase
    }

    pub closed spec fn records(&self) -> bool {
        self.recorded
    }

    pub closed spec fn program_text(&self) -> Seq<char> {
        self.program@
    }

    /// Begins to start a child.
    pub fn begin(command: &Command) -> (r: (SpawnFlow, SpawnAction))
        ensures
            match command.epoch_pid_file {
                None => spawn_begun(*command, None, r.0, r.1),
                Some(file) => exists|dir: Option<Seq<char>>|
                    path::directory_of(file.path_text(), dir) && #[trigger] spawn_begun(
                        *command,
                        dir,
                        r.0,
                        r.1,
                    ),
            },
    {
        let record_dir = match &command.epoch_pid_file {
            Some(file) => parent(file.path()),
            None => None,
        };
        let ghost dir = path::part(record_dir);
        let r = SpawnFlow::begin_in(command, record_dir);
        assert(spawn_begun(*command, dir, r.0, r.1));
        r
    }

    /// Begins to start a child whose pid record, if it has one, is in the given
    /// directory.
    pub fn begin_in(command: &Command, record_dir: Option<String>) -> (r: (SpawnFlow, SpawnAction))
        ensures
            spawn_begun(*command, path::part(record_dir), r.0, r.1),
    {
        let program = command.program.clone();
        match &command.epoch_pid_file {
            None => (
                SpawnFlow { program, recorded: false, phase: SpawnPhase::Spawning },
                SpawnAction::Spawn,
            ),
            Some(_) => match record_dir {
                Some(dir) => (
                    SpawnFlow { program, recorded: true, phase: SpawnPhase::Reaping },
                    SpawnAction::Reap { dir },
                ),
                None => (
                    SpawnFlow { program, recorded: true, phase: SpawnPhase::Finished },
                    SpawnAction::Fail(
                        ProcessError::Engine("epoch pid file has no parent".to_owned()),
                    ),
                ),
            },
        }
    }

    /// One step of the start.
    pub fn step(&mut self, event: SpawnEvent) -> (r: SpawnAction)
        ensures
            final(self).records() == old(self).records(),
            final(self).program_text() == old(self).program_text(),
            spawn_step(*old(self), event, *final(self), r),
    {
        let mut phase = SpawnPhase::Finished;
        core::mem::swap(&mut self.phase, &mut phase);
        match (phase, event) {
            (SpawnPhase::Reaping, SpawnEvent::Reaped(Ok(()))) => {
                self.phase = SpawnPhase::Spawning;
                SpawnAction::Spawn
            },
            (SpawnPhase::Reaping, SpawnEvent::Reaped(Err(error))) => SpawnAction::Fail(error),
            (SpawnPhase::Spawning, SpawnEvent::Spawned(Err(message))) => SpawnAction::Fail(
                ProcessError::Spawn { program: self.program.clone(), message },
            ),
            (SpawnPhase::Spawning, SpawnEvent::Spawned(Ok(None))) => SpawnAction::Fail(
                ProcessError::Engine("spawned child has no pid".to_owned()),
            ),
            (SpawnPhase::Spawning, SpawnEvent::Spawned(Ok(Some(pid)))) => {
                if self.recorded {
                    self.phase = SpawnPhase::Recording { pid };
                    SpawnAction::Record { pid }
                } else {
                    self.phase = SpawnPhase::Connecting { pid };
                    SpawnAction::Connect
                }
            },
            (SpawnPhase::Recording { pid }, SpawnEvent::Recorded(Ok(()))) => {
                self.phase = SpawnPhase::Connecting { pid };
                SpawnAction::Connect
            },
            (SpawnPhase::Recording { .. }, SpawnEvent::Recorded(Err(error))) => {
                self.phase = SpawnPhase::Discarding { error };
                SpawnAction::KillAndWait
            },
            (SpawnPhase::Discarding { error }, SpawnEvent::Discarded) => SpawnAction::Fail(error),
            (SpawnPhase::Connecting { pid }, SpawnEvent::Connected { stdout, stderr }) => {
                if !stdout {
                    SpawnAction::Fail(
                        ProcessError::Engine("stdout pipe was not created".to_owned()),
                    )
                } else if !stderr {
                    SpawnAction::Fail(
                        ProcessError::Engine("stderr pipe was not created".to_owned()),
                    )
                } else {
                    SpawnAction::Supervise { pid }
                }
            },
            (phase, _) => {
                self.phase = phase;
                SpawnAction::Ignore
            },
        }
    }
}

/// How the start of a child goes on.
pub open spec fn spawn_step(
    pre: SpawnFlow,
    event: SpawnEvent,
    post: SpawnFlow,
    action: SpawnAction,
) -> bool {
    match (pre.phase(), event) {
        (SpawnPhase::Reaping, SpawnEvent::Reaped(Ok(()))) => post.phase() is Spawning
            && action is Spawn,
        (SpawnPhase::Reaping, SpawnEvent::Reaped(Err(error))) => post.phase() is Finished
            && action == SpawnAction::Fail(error),
        (SpawnPhase::Spawning, SpawnEvent::Spawned(Err(message))) => post.phase() is Finished && (
        action matches SpawnAction::Fail(ProcessError::Spawn { program, message: m }) && program@
            == pre.program_text() && m == message),
        (SpawnPhase::Spawning, SpawnEvent::Spawned(Ok(None))) => post.phase() is Finished && (
        action matches SpawnAction::Fail(ProcessError::Engine(m)) && m@
            == "spawned child has no pid"@),
        (SpawnPhase::Spawning, SpawnEvent::Spawned(Ok(Some(pid)))) => if pre.records() {
            post.phase() == (SpawnPhase::Recording { pid }) && action == (SpawnAction::Record {
                pid,
            })
        } else {
            post.phase() == (SpawnPhase::Connecting { pid }) && action is Connect
        },
        (SpawnPhase::Recording { pid }, SpawnEvent::Recorded(Ok(()))) => post.phase() == (
        SpawnPhase::Connecting { pid }) && action is Connect,
        (SpawnPhase::Recording { pid }, SpawnEvent::Recorded(Err(error))) => post.phase() == (
        SpawnPhase::Discarding { error }) && action is KillAndWait,
        (SpawnPhase::Discarding { error }, SpawnEvent::Discarded) => post.phase() is Finished
            && action == SpawnAction::Fail(error),
        (SpawnPhase::Connecting { pid }, SpawnEvent::Connected { stdout, stderr }) =>
        post.phase() is Finished && (if !stdout {
            action matches SpawnAction::Fail(ProcessError::Engine(m)) && m@
                == "stdout pipe was not created"@
        } else if !stderr {
            action matches SpawnAction::Fail(ProcessError::Engine(m)) && m@
                == "stderr pipe was not created"@
        } else {
            action == (SpawnAction::Supervise { pid })
        }),
        _ => post.phase() == pre.phase() && action is Ignore,
    }
}

/// A child that is to be recorded is not supervised before its record is
/// written, and one whose record could not be written is killed before the
/// failure is reported.
pub proof fn law_no_unrecorded_child(
    pre: SpawnFlow,
    event: SpawnEvent,
    post: SpawnFlow,
    action: SpawnAction,
)
    requires
        spawn_step(pre, event, post, action),
        pre.records(),
    ensures
        pre.phase() is Spawning ==> !(post.phase() is Connecting),
        post.phase() is Connecting && !(pre.phase() is Connecting) ==> pre.phase() is Recording
            && event is Recorded,
        pre.phase() is Recording && action is Fail ==> false,
        pre.phase() is Recording ==> (event matches SpawnEvent::Recorded(Err(error)) ==> action
            is KillAndWait && post.phase() == (SpawnPhase::Discarding { error })),
{
}

/// What identifies a running process.
#[derive(Debug, Clone, PartialEq, Eq)]
pub struct ProcessIdentity {
    pub executable: String,
    pub start_token: u64,
}

/// The record of a child that was just started, where it still runs.
pub fn spawned_record(
    pid: u32,
    spec: &EpochPidFile,
    identity: Option<ProcessIdentity>,
) -> (r: Result<EpochPidRecord, ProcessError>)
    ensures
        match identity {
            Some(id) => r matches Ok(record) && record.pid == pid && record.epoch
                == spec.epoch_number() && record.executable == id.executable && record.start_token
                == id.start_token && record.runtime_config@ == spec.config_text(),
            None => r matches Err(ProcessError::Engine(m)) && m@ == "spawned pid "@
                + text::decimal(pid as nat) + " disappeared"@,
        },
{
    match identity {
        Some(id) => Ok(
            EpochPidRecord {
                pid,
                epoch: spec.epoch(),
                executable: id.executable,
                start_token: id.start_token,
                runtime_config: spec.runtime_config().to_owned(),
            },
        ),
        None => {
            let mut out = "spawned pid ".to_owned();
            out.append(u64_to_string(pid as u64).as_str());
            out.append(" disappeared");
            Err(ProcessError::Engine(out))
        },
    }
}

// ---------------------------------------------------------------------------
// Running
// ---------------------------------------------------------------------------

/// What happens while a child runs.
#[derive(Debug, Clone, Copy, PartialEq, Eq, Structural)]
pub enum RunEvent {
    Exited,
    GracefulKillAsked,
    /// The graceful kill was attempted.
    GracefulKillTried { ok: bool },
    KillAsked,
    WriteAsked,
    TimedOut,
    GraceEnded,
}

/// What the owner of the child does.
#[derive(Debug, Clone, Copy, PartialEq, Eq, Structural)]
pub enum RunAction {
    Nothing,
    /// Ask the process tree to end.
    Terminate,
    /// Kill the process tree and answer the request.
    HardKillAndReply,
    /// Kill the process tree.
    HardKill,
    /// Say that the child timed out, then kill the process tree.
    ReportTimeoutAndKill,
    WriteStdin,
    ReplyStdinUnavailable,
    /// Make the end of the child known.
    Conclude,
}

/// The deadlines of a running child, in nanoseconds of some clock.
#[derive(Debug, Clone, Copy, PartialEq, Eq, Structural)]
pub struct RunState {
    pub timeout_at: Option<u128>,
    pub grace_ends_at: Option<u128>,
    pub stdin_open: bool,
    pub done: bool,
}

/// The longest that draining the output of a finished child may take, and that
/// its last event may wait for its owner.
pub const TERMINAL_DRAIN_SECONDS: u64 = 5;

/// How a running child goes on.
pub open spec fn run_step(s: RunState, event: RunEvent, now: u128, grace: nat) -> (
    RunState,
    RunAction,
) {
    if s.done {
        (s, RunAction::Nothing)
    } else {
        match event {
            RunEvent::Exited => (RunState { done: true, ..s }, RunAction::Conclude),
            RunEvent::GracefulKillAsked => (s, RunAction::Terminate),
            RunEvent::GracefulKillTried { ok } => if ok {
                (
                    RunState { grace_ends_at: Some((now + grace) as u128), ..s },
                    RunAction::Nothing,
                )
            } else {
                (s, RunAction::Nothing)
            },
            RunEvent::KillAsked => (s, RunAction::HardKillAndReply),
            RunEvent::WriteAsked => (
                s,
                if s.stdin_open {
                    RunAction::WriteStdin
                } else {
                    RunAction::ReplyStdinUnavailable
                },
            ),
            RunEvent::TimedOut => if s.timeout_at is Some {
                (RunState { timeout_at: None, ..s }, RunAction::ReportTimeoutAndKill)
            } else {
                (s, RunAction::Nothing)
            },
            RunEvent::GraceEnded => if s.grace_ends_at is Some {
                (RunState { grace_ends_at: None, ..s }, RunAction::HardKill)
            } else {
                (s, RunAction::Nothing)
            },
        }
    }
}

impl RunState {
    /// A child that starts to run now, with the time that it has in all.
    pub fn start(now: u128, timeout: Option<Duration>, pipe_stdin: bool) -> (r: RunState)
        requires
            now < 0x1_0000_0000_0000_0000_0000_0000_0000,
        ensures
            r.stdin_open == pipe_stdin,
            !r.done,
            r.grace_ends_at is None,
            match timeout {
                Some(t) => r.timeout_at == Some((now + t@) as u128),
                None => r.timeout_at is None,
            },
    {
        RunState {
            timeout_at: match timeout {
                Some(t) => Some(now + t.as_nanos()),
                None => None,
            },
            grace_ends_at: None,
            stdin_open: pipe_stdin,
            done: false,
        }
    }

    /// One step. `now` is the reading of the clock, `grace` the time that a child
    /// has between the request to end and the kill.
    pub fn step(&mut self, event: RunEvent, now: u128, grace: Duration) -> (r: RunAction)
        requires
            now < 0x1_0000_0000_0000_0000_0000_0000_0000,
        ensures
            (*final(self), r) == run_step(*old(self), event, now, grace@),
    {
        if self.done {
            return RunAction::Nothing;
        }
        match event {
            RunEvent::Exited => {
                self.done = true;
                RunAction::Conclude
            },
            RunEvent::GracefulKillAsked => RunAction::Terminate,
            RunEvent::GracefulKillTried { ok } => {
                if ok {
                    self.grace_ends_at = Some(now + grace.as_nanos());
                }
                RunAction::Nothing
            },
            RunEvent::KillAsked => RunAction::HardKillAndReply,
            RunEvent::WriteAsked => if self.stdin_open {
                RunAction::WriteStdin
            } else {
                RunAction::ReplyStdinUnavailable
            },
            RunEvent::TimedOut => if self.timeout_at.is_some() {
                self.timeout_at = None;
                RunAction::ReportTimeoutAndKill
            } else {
                RunAction::Nothing
            },
            RunEvent::GraceEnded => if self.grace_ends_at.is_some() {
                self.grace_ends_at = None;
                RunAction::HardKill
            } else {
                RunAction::Nothing
            },
        }
    }
}

/// A timeout strikes once: after it, it is not armed again.
pub proof fn law_timeout_strikes_once(s: RunState, event: RunEvent, now: u128, grace: nat)
    requires
        s.timeout_at is None,
    ensures
        run_step(s, event, now, grace).0.timeout_at is None,
        run_step(s, event, now, grace).1 != RunAction::ReportTimeoutAndKill,
{
}

/// Nothing is done to a child whose end was made known.
pub proof fn law_nothing_after_the_end(s: RunState, event: RunEvent, now: u128, grace: nat)
    requires
        s.done,
    ensures
        run_step(s, event, now, grace) == (s, RunAction::Nothing),
{
}

// ---------------------------------------------------------------------------
// The end
// ---------------------------------------------------------------------------

/// What is done when a child has ended, in order.
#[derive(Debug)]
pub enum ExitStep {
    /// Let what the child printed be read, within the drain time.
    DrainOutput,
    SendTerminated(TerminatedPayload),
    SendError(String),
    /// Remove the pid record where it is still that of this child; send the error
    /// where that fails.
    RemovePidRecord,
    /// Let waiting callers see the end.
    Publish,
}

/// The steps of an end, in order: output first, then the event, then the pid
/// record, and at last those who wait.
pub fn exit_steps(
    result: &Result<TerminatedPayload, String>,
    has_record: bool,
) -> (r: Vec<ExitStep>)
    ensures
        r@.len() == (if has_record {
            4int
        } else {
            3int
        }),
        r@[0] is DrainOutput,
        match result {
            Ok(payload) => r@[1] == ExitStep::SendTerminated(*payload),
            Err(message) => r@[1] == ExitStep::SendError(*message),
        },
        has_record ==> r@[2] is RemovePidRecord,
        r@.last() is Publish,
{
    let mut steps: Vec<ExitStep> = Vec::new();
    steps.push(ExitStep::DrainOutput);
    match result {
        Ok(payload) => steps.push(ExitStep::SendTerminated(*payload)),
        Err(message) => steps.push(ExitStep::SendError(message.clone())),
    }
    if has_record {
        steps.push(ExitStep::RemovePidRecord);
    }
    steps.push(ExitStep::Publish);
    steps
}

/// What is said where a pid record could not be removed.
pub fn record_removal_error(error: &str) -> (r: String)
    ensures
        r@ == "failed to remove epoch pid record: "@ + error@,
{
    let mut out = "failed to remove epoch pid record: ".to_owned();
    out.append(error);
    out
}

// ---------------------------------------------------------------------------
// Output
// ---------------------------------------------------------------------------

/// The text of bytes in the encoding with a given label.
pub uninterp spec fn encoded_text(label: Seq<char>, bytes: Seq<u8>) -> Option<Seq<char>>;

/// `encoding_rs::Encoding::decode`: the text of the bytes in the encoding that
/// the label names, and nothing where it names none. The result is named after
/// both.
#[verifier::external_body]
fn decode_labelled(label: &str, bytes: &[u8]) -> (r: Option<String>)
    ensures
        match r {
            Some(s) => encoded_text(label@, bytes@) == Some(s@),
            None => encoded_text(label@, bytes@) is None,
        },
{
    let encoding = encoding_rs::Encoding::for_label(label.as_bytes())?;
    Some(encoding.decode(bytes).0.into_owned())
}

/// The text of what a child printed.
pub open spec fn output_text(bytes: Seq<u8>, label: Option<Seq<char>>) -> Seq<char> {
    match label {
        Some(l) => match encoded_text(l, bytes) {
            Some(s) => s,
            None => text::lossy_text(bytes),
        },
        None => text::lossy_text(bytes),
    }
}

pub open spec fn label_view(label: Option<String>) -> Option<Seq<char>> {
    match label {
        Some(l) => Some(l@),
        None => None,
    }
}

pub fn decode(bytes: &[u8], encoding: &Option<String>) -> (r: String)
    ensures
        r@ == output_text(bytes@, label_view(*encoding)),
{
    match encoding {
        Some(label) => match decode_labelled(label.as_str(), bytes) {
            Some(s) => s,
            None => decode_lossy(bytes),
        },
        None => decode_lossy(bytes),
    }
}

/// A line without the line feeds and carriage returns at its end.
pub open spec fn chomped(bytes: Seq<u8>) -> Seq<u8>
    decreases bytes.len(),
{
    if bytes.len() > 0 && (bytes.last() == 10 || bytes.last() == 13) {
        chomped(bytes.drop_last())
    } else {
        bytes
    }
}

/// The text of one line that a child printed.
pub fn line_text(buffer: Vec<u8>, encoding: &Option<String>) -> (r: String)
    ensures
        r@ == output_text(chomped(buffer@), label_view(*encoding)),
{
    let mut line = buffer;
    let ghost whole = line@;
    loop
        invariant
            chomped(line@) == chomped(whole),
        ensures
            line@ == chomped(whole),
        decreases line@.len(),
    {
        let n: usize = line.len();
        if n == 0 || (line[n - 1] != 10 && line[n - 1] != 13) {
            break;
        }
        let _ = line.pop();
    }
    decode(line.as_slice(), encoding)
}

/// How running a command to its end came out.
#[derive(Debug)]
pub enum Captured {
    Finished { code: Option<i32>, stdout: Vec<u8>, stderr: Vec<u8> },
    SpawnFailed(String),
    TimedOut(Duration),
}

pub fn capture_result(
    program: &str,
    encoding: &Option<String>,
    captured: Captured,
) -> (r: Result<ProcessOutput, ProcessError>)
    ensures
        match captured {
            Captured::Finished { code, stdout, stderr } => r matches Ok(output) && output.code
                == code && output.stdout@ == output_text(stdout@, label_view(*encoding))
                && output.stderr@ == output_text(stderr@, label_view(*encoding)),
            Captured::SpawnFailed(message) => r matches Err(
                ProcessError::Spawn { program: p, message: m },
            ) && p@ == program@ && m == message,
            Captured::TimedOut(after) => r == Err::<ProcessOutput, ProcessError>(
                ProcessError::Timeout { after },
            ),
        },
{
    match captured {
        Captured::Finished { code, stdout, stderr } => Ok(
            ProcessOutput {
                code,
                stdout: decode(stdout.as_slice(), encoding),
                stderr: decode(stderr.as_slice(), encoding),
            },
        ),
        Captured::SpawnFailed(message) => Err(
            ProcessError::Spawn { program: program.to_owned(), message },
        ),
        Captured::TimedOut(after) => Err(ProcessError::Timeout { after }),
    }
}

/// A child without a pid record is started, connected and then supervised under
/// the pid that it was started with.
pub proof fn law_children_are_supervised_under_their_pid(
    command: Command,
    dir: Option<Seq<char>>,
    pid: u32,
    flows: Seq<SpawnFlow>,
    actions: Seq<SpawnAction>,
)
    requires
        flows.len() == 3,
        actions.len() == 3,
        command.epoch_pid_file is None,
        spawn_begun(command, dir, flows[0], actions[0]),
        flows[1].records() == flows[0].records(),
        spawn_step(flows[0], SpawnEvent::Spawned(Ok(Some(pid))), flows[1], actions[1]),
        spawn_step(
            flows[1],
            SpawnEvent::Connected { stdout: true, stderr: true },
            flows[2],
            actions[2],
        ),
    ensures
        actions[0] is Spawn,
        actions[1] is Connect,
        actions[2] == (SpawnAction::Supervise { pid }),
{
}

/// A child with a pid record is started once what an earlier record names was
/// dealt with, and supervised under its pid once its own record is written.
pub proof fn law_recorded_children_are_supervised_under_their_pid(
    command: Command,
    dir: Seq<char>,
    pid: u32,
    flows: Seq<SpawnFlow>,
    actions: Seq<SpawnAction>,
)
    requires
        flows.len() == 5,
        actions.len() == 5,
        command.epoch_pid_file is Some,
        spawn_begun(command, Some(dir), flows[0], actions[0]),
        forall|i: int| 0 <= i < 5 ==> (#[trigger] flows[i]).records() == flows[0].records(),
        spawn_step(flows[0], SpawnEvent::Reaped(Ok(())), flows[1], actions[1]),
        spawn_step(flows[1], SpawnEvent::Spawned(Ok(Some(pid))), flows[2], actions[2]),
        spawn_step(flows[2], SpawnEvent::Recorded(Ok(())), flows[3], actions[3]),
        spawn_step(
            flows[3],
            SpawnEvent::Connected { stdout: true, stderr: true },
            flows[4],
            actions[4],
        ),
    ensures
        actions[0] matches SpawnAction::Reap { dir: d } && d@ == dir,
        actions[1] is Spawn,
        actions[2] == (SpawnAction::Record { pid }),
        actions[3] is Connect,
        actions[4] == (SpawnAction::Supervise { pid }),
{
}

/// A start that goes wrong fails with what went wrong, and a child whose pipes
/// are not both there is not supervised.
pub proof fn law_failed_starts_are_told(
    flow: SpawnFlow,
    event: SpawnEvent,
    post: SpawnFlow,
    action: SpawnAction,
)
    requires
        spawn_step(flow, event, post, action),
    ensures
        flow.phase() is Reaping ==> (event matches SpawnEvent::Reaped(Err(error)) ==> action
            == SpawnAction::Fail(error)),
        flow.phase() is Spawning ==> (event matches SpawnEvent::Spawned(Err(message)) ==> (
        action matches SpawnAction::Fail(ProcessError::Spawn { program, message: m }) && program@
            == flow.program_text() && m == message)),
        flow.phase() is Spawning ==> (event matches SpawnEvent::Spawned(Ok(None)) ==> action
            is Fail),
        flow.phase() matches SpawnPhase::Discarding { error } ==> (event is Discarded ==> action
            == SpawnAction::Fail(error)),
        flow.phase() is Connecting ==> (event matches SpawnEvent::Connected { stdout, stderr }
            ==> (!stdout || !stderr ==> action is Fail)),
        action is Supervise ==> (event matches SpawnEvent::Connected { stdout, stderr } && stdout
            && stderr),
        action is Fail ==> post.phase() is Finished,
        flow.phase() is Finished ==> action is Ignore && post.phase() is Finished,
{
}

/// A child that was asked to end and does not is killed when its grace is over:
/// the grace begins when the request was made, and one that could not be made
/// sets no deadline.
pub proof fn law_requests_to_end_are_enforced(s: RunState, asked: u128, ended: u128, grace: nat)
    requires
        !s.done,
        asked + grace <= u128::MAX,
    ensures
        run_step(s, RunEvent::GracefulKillAsked, asked, grace) == (s, RunAction::Terminate),
        ({
            let waiting = run_step(s, RunEvent::GracefulKillTried { ok: true }, asked, grace).0;
            let over = run_step(waiting, RunEvent::GraceEnded, ended, grace);
            &&& waiting.grace_ends_at == Some((asked + grace) as u128)
            &&& waiting.timeout_at == s.timeout_at
            &&& waiting.stdin_open == s.stdin_open
            &&& !waiting.done
            &&& over.1 == RunAction::HardKill
            &&& over.0.grace_ends_at is None
            &&& over.0.timeout_at == s.timeout_at
            &&& !over.0.done
        }),
        run_step(s, RunEvent::GracefulKillTried { ok: false }, asked, grace) == (
            s,
            RunAction::Nothing,
        ),
        s.grace_ends_at is None ==> run_step(s, RunEvent::GraceEnded, ended, grace) == (
            s,
            RunAction::Nothing,
        ),
{
}

/// Whatever else is going on, a child that runs is killed when that is asked or
/// its time is up, is written to where it has an input, and is concluded when it
/// exits and only then.
pub proof fn law_running_children_are_served(s: RunState, event: RunEvent, now: u128, grace: nat)
    requires
        !s.done,
    ensures
        run_step(s, RunEvent::KillAsked, now, grace) == (s, RunAction::HardKillAndReply),
        run_step(s, RunEvent::WriteAsked, now, grace).0 == s,
        run_step(s, RunEvent::WriteAsked, now, grace).1 == RunAction::WriteStdin
            <==> s.stdin_open,
        run_step(s, RunEvent::WriteAsked, now, grace).1 == RunAction::ReplyStdinUnavailable
            <==> !s.stdin_open,
        s.timeout_at is Some ==> run_step(s, RunEvent::TimedOut, now, grace).1
            == RunAction::ReportTimeoutAndKill,
        run_step(s, event, now, grace).1 == RunAction::Conclude <==> event is Exited,
        run_step(s, event, now, grace).0.done <==> event is Exited,
        run_step(s, event, now, grace).0.stdin_open == s.stdin_open,
        !(event is TimedOut) ==> run_step(s, event, now, grace).0.timeout_at == s.timeout_at,
{
}

/// What is left of a line is its beginning: only line feeds and carriage returns
/// at its end are gone, and all of them.
pub proof fn law_lines_lose_only_their_ends(bytes: Seq<u8>)
    ensures
        chomped(bytes).len() <= bytes.len(),
        chomped(bytes) == bytes.take(chomped(bytes).len() as int),
        forall|i: int|
            chomped(bytes).len() <= i < bytes.len() ==> #[trigger] bytes[i] == 10 || bytes[i]
                == 13,
        chomped(bytes).len() > 0 ==> chomped(bytes).last() != 10 && chomped(bytes).last() != 13,
    decreases bytes.len(),
{
    if bytes.len() > 0 && (bytes.last() == 10 || bytes.last() == 13) {
        let rest = bytes.drop_last();
        law_lines_lose_only_their_ends(rest);
        let n = chomped(rest).len() as int;
        assert(rest.take(n) =~= bytes.take(n));
        assert forall|i: int| n <= i < bytes.len() implies #[trigger] bytes[i] == 10 || bytes[i]
            == 13 by {
            if i < rest.len() {
                assert(rest[i] == bytes[i]);
            }
        }
    } else {
        assert(bytes.take(bytes.len() as int) =~= bytes);
    }
}

/// Output without a known encoding is read as UTF-8, and with one in it.
pub proof fn law_output_is_read_in_its_encoding(bytes: Seq<u8>, label: Seq<char>)
    ensures
        output_text(bytes, None) == text::lossy_text(bytes),
        encoded_text(label, bytes) is None ==> output_text(bytes, Some(label)) == output_text(
            bytes,
            None,
        ),
        encoded_text(label, bytes) matches Some(s) ==> output_text(bytes, Some(label)) == s,
{
}

} // verus!
