//! What can go wrong with a child process, and what a finished one printed.

use vstd::prelude::*;
use vstd::string::*;

use crate::time;
use crate::time::Duration;

verus! {

#[derive(Debug)]
pub enum ProcessError {
    Io(String),
    Spawn { program: String, message: String },
    Timeout { after: Duration },
    AlreadyExited,
    StdinUnavailable,
    Engine(String),
}

/// What an error says.
pub open spec fn process_error_text(e: ProcessError) -> Seq<char> {
    match e {
        ProcessError::Io(message) => "io error: "@ + message@,
        ProcessError::Spawn { program, message } => "failed to spawn `"@ + program@ + "`: "@
            + message@,
        ProcessError::Timeout { after } => "process timed out after "@ + time::span_text(after@),
        ProcessError::AlreadyExited => "process already exited"@,
        ProcessError::StdinUnavailable =>
        "stdin is not piped (enable Command::pipe_stdin) or already closed"@,
        ProcessError::Engine(message) => "process engine error: "@ + message@,
    }
}

impl ProcessError {
    pub fn message(&self) -> (r: String)
        ensures
            r@ == process_error_text(*self),
    {
        match self {
            ProcessError::Io(message) => {
                let mut out = "io error: ".to_owned();
                out.append(message.as_str());
                out
            },
            ProcessError::Spawn { program, message } => {
                let mut out = "failed to spawn `".to_owned();
                out.append(program.as_str());
                out.append("`: ");
                out.append(message.as_str());
                out
            },
            ProcessError::Timeout { after } => {
                let mut out = "process timed out after ".to_owned();
                out.append(after.text().as_str());
                out
            },
            ProcessError::AlreadyExited => "process already exited".to_owned(),
            ProcessError::StdinUnavailable =>
            "stdin is not piped (enable Command::pipe_stdin) or already closed".to_owned(),
            ProcessError::Engine(message) => {
                let mut out = "process engine error: ".to_owned();
                out.append(message.as_str());
                out
            },
        }
    }
}

#[derive(Debug, Clone)]
pub struct ProcessOutput {
    pub code: Option<i32>,
    pub stdout: String,
    pub stderr: String,
}

impl ProcessOutput {
    pub fn success(&self) -> (r: bool)
        ensures
            r == (self.code == Some(0i32)),
    {
        match self.code {
            Some(code) => code == 0,
            None => false,
        }
    }
}

} // verus!
