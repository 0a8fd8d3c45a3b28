//! What a request to a running child comes to.

use vstd::prelude::*;
use vstd::string::*;

use crate::process::error::ProcessError;
use crate::process::event::TerminatedPayload;

verus! {

#[derive(Debug, Clone, Copy, PartialEq, Eq, Structural)]
pub enum Containment {
    JobObject,
    CgroupV2,
    ProcessGroup,
    /// Descendants are discovered and killed as a tree.
    ProcessTreeScan,
}

/// What is asked of a child.
#[derive(Debug, Clone, Copy, PartialEq, Eq, Structural)]
pub enum Request {
    GracefulKill,
    Kill,
    WriteStdin,
}

/// What a request comes to. `reply` is what the owner of the child answered,
/// where it took the request and answered it; `terminated` is whether the child
/// is known to have ended by then. A kill of a child that has ended is done.
pub open spec fn outcome(
    request: Request,
    reply: Option<Result<(), ProcessError>>,
    terminated: bool,
) -> Result<(), ProcessError> {
    match reply {
        Some(result) => result,
        None => match request {
            Request::WriteStdin => Err(ProcessError::StdinUnavailable),
            _ => if terminated {
                Ok(())
            } else {
                Err(ProcessError::AlreadyExited)
            },
        },
    }
}

pub fn control_outcome(
    request: Request,
    reply: Option<Result<(), ProcessError>>,
    terminated: bool,
) -> (r: Result<(), ProcessError>)
    ensures
        r == outcome(request, reply, terminated),
{
    match reply {
        Some(result) => result,
        None => match request {
            Request::WriteStdin => Err(ProcessError::StdinUnavailable),
            _ => if terminated {
                Ok(())
            } else {
                Err(ProcessError::AlreadyExited)
            },
        },
    }
}

/// What waiting for a child gives. `published` is the end of the child, once it
/// is known; `closed` is whether nobody is left to make it known. Nothing comes
/// back while there is still something to wait for.
pub fn wait_outcome(
    published: Option<Result<TerminatedPayload, String>>,
    closed: bool,
) -> (r: Option<Result<TerminatedPayload, ProcessError>>)
    ensures
        match published {
            Some(Ok(payload)) => r == Some(Ok::<TerminatedPayload, ProcessError>(payload)),
            Some(Err(message)) => r == Some(
                Err::<TerminatedPayload, ProcessError>(ProcessError::Engine(message)),
            ),
            None => if closed {
                r matches Some(Err(ProcessError::Engine(m))) && m@ == "process pump task dropped"@
            } else {
                r is None
            },
        },
{
    match published {
        Some(Ok(payload)) => Some(Ok(payload)),
        Some(Err(message)) => Some(Err(ProcessError::Engine(message))),
        None => if closed {
            Some(Err(ProcessError::Engine("process pump task dropped".to_owned())))
        } else {
            None
        },
    }
}

/// What the owner of a child answered is what a request comes to. Without an
/// answer a child that has ended was killed, and nothing was written to it.
pub proof fn law_answers_are_handed_on(
    request: Request,
    answer: Result<(), ProcessError>,
    terminated: bool,
)
    ensures
        outcome(request, Some(answer), terminated) == answer,
        !(request is WriteStdin) ==> (outcome(request, None, terminated) is Ok <==> terminated),
        request is WriteStdin ==> outcome(request, None, terminated) == Err::<(), ProcessError>(
            ProcessError::StdinUnavailable,
        ),
        outcome(request, None, false) is Err,
{
}

} // verus!
