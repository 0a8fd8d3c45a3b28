//! What to run and how.

use vstd::prelude::*;
use vstd::string::*;

use crate::process::pid_file::EpochPidFile;
use crate::text;
use crate::time::Duration;

verus! {

/// A managed child process that has not been spawned yet.
#[derive(Debug)]
pub struct Command {
    pub program: String,
    pub args: Vec<String>,
    pub envs: Vec<(String, String)>,
    pub current_dir: Option<String>,
    /// Label of the encoding of the output; UTF-8 where there is none.
    pub encoding: Option<String>,
    pub hide_window: bool,
    pub kill_grace: Duration,
    pub event_channel_capacity: usize,
    pub timeout: Option<Duration>,
    pub pipe_stdin: bool,
    pub epoch_pid_file: Option<EpochPidFile>,
}

/// Everything of a command but the arguments and the environment is the same.
pub open spec fn same_but_lists(a: Command, b: Command) -> bool {
    &&& a.program == b.program
    &&& a.current_dir == b.current_dir
    &&& a.encoding == b.encoding
    &&& a.hide_window == b.hide_window
    &&& a.kill_grace == b.kill_grace
    &&& a.event_channel_capacity == b.event_channel_capacity
    &&& a.timeout == b.timeout
    &&& a.pipe_stdin == b.pipe_stdin
    &&& a.epoch_pid_file == b.epoch_pid_file
}

impl Command {
    pub fn new(program: &str) -> (r: Command)
        ensures
            r.program@ == program@,
            r.args@.len() == 0,
            r.envs@.len() == 0,
            r.current_dir is None,
            r.encoding is None,
            r.hide_window,
            r.kill_grace@ == 5_000_000_000,
            r.event_channel_capacity == 64,
            r.timeout is None,
            !r.pipe_stdin,
            r.epoch_pid_file is None,
    {
        Command {
            program: program.to_owned(),
            args: Vec::new(),
            envs: Vec::new(),
            current_dir: None,
            encoding: None,
            hide_window: true,
            kill_grace: Duration::from_secs(5),
            event_channel_capacity: 64,
            timeout: None,
            pipe_stdin: false,
            epoch_pid_file: None,
        }
    }

    pub fn arg(self, arg: &str) -> (r: Command)
        ensures
            same_but_lists(r, self),
            r.envs == self.envs,
            text::strings(r.args@) == text::strings(self.args@).push(arg@),
    {
        let mut out = self;
        let ghost before = out.args@;
        out.args.push(arg.to_owned());
        assert(text::strings(out.args@) =~= text::strings(before).push(arg@));
        out
    }

    pub fn args(self, args: Vec<String>) -> (r: Command)
        ensures
            same_but_lists(r, self),
            r.envs == self.envs,
            r.args@ == self.args@ + args@,
    {
        let mut out = self;
        let mut more = args;
        out.args.append(&mut more);
        out
    }

    pub fn env(self, key: &str, value: &str) -> (r: Command)
        ensures
            same_but_lists(r, self),
            r.args == self.args,
            r.envs@.len() == self.envs@.len() + 1,
            r.envs@.drop_last() == self.envs@,
            r.envs@.last().0@ == key@,
            r.envs@.last().1@ == value@,
    {
        let mut out = self;
        let ghost before = out.envs@;
        out.envs.push((key.to_owned(), value.to_owned()));
        assert(out.envs@.drop_last() =~= before);
        out
    }

    pub fn current_dir(self, dir: String) -> (r: Command)
        ensures
            r == (Command { current_dir: Some(dir), ..self }),
    {
        let mut out = self;
        out.current_dir = Some(dir);
        out
    }

    pub fn encoding(self, encoding: Option<String>) -> (r: Command)
        ensures
            r == (Command { encoding, ..self }),
    {
        let mut out = self;
        out.encoding = encoding;
        out
    }

    pub fn hide_window(self, hide: bool) -> (r: Command)
        ensures
            r == (Command { hide_window: hide, ..self }),
    {
        let mut out = self;
        out.hide_window = hide;
        out
    }

    pub fn kill_grace(self, grace: Duration) -> (r: Command)
        ensures
            r == (Command { kill_grace: grace, ..self }),
    {
        let mut out = self;
        out.kill_grace = grace;
        out
    }

    /// The events that wait for their owner; at least one.
    pub fn event_channel_capacity(self, capacity: usize) -> (r: Command)
        ensures
            r == (Command {
                event_channel_capacity: if capacity == 0 {
                    1
                } else {
                    capacity
                },
                ..self
            }),
    {
        let mut out = self;
        out.event_channel_capacity = if capacity == 0 {
            1
        } else {
            capacity
        };
        out
    }

    pub fn timeout(self, timeout: Duration) -> (r: Command)
        ensures
            r == (Command { timeout: Some(timeout), ..self }),
    {
        let mut out = self;
        out.timeout = Some(timeout);
        out
    }

    pub fn pipe_stdin(self, pipe: bool) -> (r: Command)
        ensures
            r == (Command { pipe_stdin: pipe, ..self }),
    {
        let mut out = self;
        out.pipe_stdin = pipe;
        out
    }

    pub fn epoch_pid_file(self, file: EpochPidFile) -> (r: Command)
        ensures
            r == (Command { epoch_pid_file: Some(file), ..self }),
    {
        let mut out = self;
        out.epoch_pid_file = Some(file);
        out
    }
}

} // verus!
