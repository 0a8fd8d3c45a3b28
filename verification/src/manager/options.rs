//! Setting up the manager: its options, its probes, and what earlier runs left
//! behind.

use vstd::prelude::*;
use vstd::string::*;

use crate::config::endpoint;
use crate::config::endpoint::validate_controller_template;
use crate::config::runtime_store;
use crate::config::runtime_store::highest_epoch;
use crate::error::Error;
use crate::health::probe::ProbeHandle;
use crate::instance::OrphanReapOutcome;
use crate::process::error::ProcessError;
use crate::spec::ManagerOptions;
use crate::time::Duration;

verus! {

// ---------------------------------------------------------------------------
// Options
// ---------------------------------------------------------------------------

/// The manager's options, and the probes that its instances are watched with.
pub struct CoreManagerBuilder {
    pub options: ManagerOptions,
    pub readiness: Option<ProbeHandle>,
    pub liveness: Option<ProbeHandle>,
    pub liveness_with_readiness: bool,
}

impl CoreManagerBuilder {
    pub fn new(options: ManagerOptions) -> (r: CoreManagerBuilder)
        ensures
            r == (CoreManagerBuilder {
                options,
                readiness: None,
                liveness: None,
                liveness_with_readiness: false,
            }),
    {
        CoreManagerBuilder {
            options,
            readiness: None,
            liveness: None,
            liveness_with_readiness: false,
        }
    }

    pub fn readiness_probe(self, probe: ProbeHandle) -> (r: CoreManagerBuilder)
        ensures
            r == (CoreManagerBuilder { readiness: Some(probe), ..self }),
    {
        CoreManagerBuilder { readiness: Some(probe), ..self }
    }

    pub fn liveness_probe(self, probe: ProbeHandle) -> (r: CoreManagerBuilder)
        ensures
            r == (CoreManagerBuilder {
                liveness: Some(probe),
                liveness_with_readiness: false,
                ..self
            }),
    {
        CoreManagerBuilder { liveness: Some(probe), liveness_with_readiness: false, ..self }
    }

    /// The readiness probe goes on as the liveness probe.
    pub fn liveness_with_readiness_probe(self) -> (r: CoreManagerBuilder)
        ensures
            r == (CoreManagerBuilder { liveness: None, liveness_with_readiness: true, ..self }),
    {
        CoreManagerBuilder { liveness: None, liveness_with_readiness: true, ..self }
    }
}

/// The first duration that must not be zero and is, by its name.
pub open spec fn zero_timeout(options: ManagerOptions) -> Option<Seq<char>> {
    if options.control_timeout@ == 0 {
        Some("control_timeout"@)
    } else if options.reconcile_timeout@ == 0 {
        Some("reconcile_timeout"@)
    } else if options.stop_timeout@ == 0 {
        Some("stop_timeout"@)
    } else {
        None
    }
}

pub open spec fn refuses(r: Result<(), Error>, words: Seq<char>) -> bool {
    r matches Err(Error::InvalidManagerOptions(m)) && m@ == words
}

/// What the options are refused for.
pub open spec fn options_outcome(options: ManagerOptions, r: Result<(), Error>) -> bool {
    if options.runtime_dir is None {
        refuses(r, "runtime_dir is required"@)
    } else if options.runtime_dir->0@.len() == 0 {
        refuses(r, "runtime_dir must not be empty"@)
    } else if options.controller_template is Some && !endpoint::template_outcome(
        options.controller_template->0@,
        Ok(()),
    ) {
        r is Err && endpoint::template_outcome(options.controller_template->0@, r)
    } else if zero_timeout(options) is Some {
        refuses(r, zero_timeout(options)->0 + " must be greater than zero"@)
    } else if options.log_max_bytes == 0 {
        refuses(r, "log_max_bytes must be greater than zero"@)
    } else if options.log_max_files == 0 {
        refuses(r, "log_max_files must be greater than zero"@)
    } else {
        r is Ok
    }
}

fn invalid(words: &str) -> (r: Result<(), Error>)
    ensures
        refuses(r, words@),
{
    Err(Error::InvalidManagerOptions(words.to_owned()))
}

fn positive(name: &str, timeout: Duration) -> (r: Result<(), Error>)
    ensures
        timeout@ == 0 ==> refuses(r, name@ + " must be greater than zero"@),
        timeout@ != 0 ==> r is Ok,
{
    if timeout.is_zero() {
        let mut words = name.to_owned();
        words.append(" must be greater than zero");
        return Err(Error::InvalidManagerOptions(words));
    }
    Ok(())
}

/// Whether a manager can be set up with these options.
pub fn validate_options(options: &ManagerOptions) -> (r: Result<(), Error>)
    ensures
        options_outcome(*options, r),
{
    match &options.runtime_dir {
        None => {
            return invalid("runtime_dir is required");
        },
        Some(dir) => {
            if dir.as_str().is_empty() {
                return invalid("runtime_dir must not be empty");
            }
        },
    }
    if let Some(template) = &options.controller_template {
        let checked = validate_controller_template(template.as_str());
        if checked.is_err() {
            return checked;
        }
    }
    let control = positive("control_timeout", options.control_timeout);
    if control.is_err() {
        return control;
    }
    let reconcile = positive("reconcile_timeout", options.reconcile_timeout);
    if reconcile.is_err() {
        return reconcile;
    }
    let stop = positive("stop_timeout", options.stop_timeout);
    if stop.is_err() {
        return stop;
    }
    if options.log_max_bytes == 0 {
        return invalid("log_max_bytes must be greater than zero");
    }
    if options.log_max_files == 0 {
        return invalid("log_max_files must be greater than zero");
    }
    Ok(())
}

// ---------------------------------------------------------------------------
// What earlier runs left behind
// ---------------------------------------------------------------------------

#[derive(Debug, Clone, Copy, PartialEq, Eq, Structural)]
pub enum SweepPhase {
    Looking,
    Reaping,
    Cleaning,
    Finished,
}

#[derive(Debug)]
pub enum SweepEvent {
    /// Whether there is a pid record.
    Looked(Result<bool, Error>),
    Reaped(Result<OrphanReapOutcome, ProcessError>),
    Cleaned(Result<(), Error>),
}

#[derive(Debug)]
pub enum SweepAction {
    /// Look for the pid record of the epoch.
    Look { epoch: u64 },
    Reap { epoch: u64 },
    Cleanup { epoch: u64 },
    /// The last epoch that was begun.
    Done(Result<u64, Error>),
    /// The event does not belong here.
    Ignore,
}

/// The epochs that left files behind, one after the other; `at` is the one that
/// is being dealt with.
pub struct SweepFlow {
    pub epochs: Vec<u64>,
    pub at: usize,
    pub phase: SweepPhase,
}

/// How sweeping goes on with the epoch at `at`, or ends.
pub open spec fn swept_to(
    epochs: Seq<u64>,
    at: int,
    post: SweepFlow,
    action: SweepAction,
) -> bool {
    &&& post.epochs@ == epochs
    &&& if at < epochs.len() {
        &&& post.at == at
        &&& post.phase is Looking
        &&& action == (SweepAction::Look { epoch: epochs[at] })
    } else {
        &&& post.phase is Finished
        &&& action == SweepAction::Done(Ok(runtime_store::last_or_zero(epochs)))
    }
}

/// Sweeping stays with its epoch.
pub open spec fn stays(pre: SweepFlow, post: SweepFlow) -> bool {
    post.epochs@ == pre.epochs@ && post.at == pre.at
}

/// How sweeping goes on: an epoch that has a pid record is reaped before its files
/// are removed, and the first failure ends it.
pub open spec fn sweep_step(
    pre: SweepFlow,
    event: SweepEvent,
    post: SweepFlow,
    action: SweepAction,
) -> bool {
    let epoch = pre.epochs@[pre.at as int];
    match (pre.phase, event) {
        (SweepPhase::Looking, SweepEvent::Looked(Ok(found))) => stays(pre, post) && if found {
            post.phase is Reaping && action == (SweepAction::Reap { epoch })
        } else {
            post.phase is Cleaning && action == (SweepAction::Cleanup { epoch })
        },
        (SweepPhase::Looking, SweepEvent::Looked(Err(e))) => stays(pre, post) && post.phase
            is Finished && action == SweepAction::Done(Err(e)),
        (SweepPhase::Reaping, SweepEvent::Reaped(Ok(_))) => stays(pre, post) && post.phase
            is Cleaning && action == (SweepAction::Cleanup { epoch }),
        (SweepPhase::Reaping, SweepEvent::Reaped(Err(e))) => stays(pre, post) && post.phase
            is Finished && action == SweepAction::Done(Err(Error::Process(e))),
        (SweepPhase::Cleaning, SweepEvent::Cleaned(Ok(()))) => swept_to(
            pre.epochs@,
            pre.at + 1,
            post,
            action,
        ),
        (SweepPhase::Cleaning, SweepEvent::Cleaned(Err(e))) => stays(pre, post) && post.phase
            is Finished && action == SweepAction::Done(Err(e)),
        _ => post == pre && action is Ignore,
    }
}

impl SweepFlow {
    pub open spec fn wf(&self) -> bool {
        self.phase is Finished || self.at < self.epochs@.len()
    }

    /// Goes through the epochs of a listing.
    pub fn begin(epochs: Vec<u64>) -> (r: (SweepFlow, SweepAction))
        ensures
            r.0.wf(),
            swept_to(epochs@, 0, r.0, r.1),
    {
        if epochs.len() == 0 {
            let last = highest_epoch(&epochs);
            return (
                SweepFlow { epochs, at: 0, phase: SweepPhase::Finished },
                SweepAction::Done(Ok(last)),
            );
        }
        let epoch = epochs[0];
        (SweepFlow { epochs, at: 0, phase: SweepPhase::Looking }, SweepAction::Look { epoch })
    }

    pub fn step(&mut self, event: SweepEvent) -> (r: SweepAction)
        requires
            old(self).wf(),
        ensures
            final(self).wf(),
            sweep_step(*old(self), event, *final(self), r),
    {
        match (self.phase, event) {
            (SweepPhase::Looking, SweepEvent::Looked(Ok(found))) => {
                let epoch = self.epochs[self.at];
                if found {
                    self.phase = SweepPhase::Reaping;
                    SweepAction::Reap { epoch }
                } else {
                    self.phase = SweepPhase::Cleaning;
                    SweepAction::Cleanup { epoch }
                }
            },
            (SweepPhase::Looking, SweepEvent::Looked(Err(e))) => {
                self.phase = SweepPhase::Finished;
                SweepAction::Done(Err(e))
            },
            (SweepPhase::Reaping, SweepEvent::Reaped(Ok(_))) => {
                let epoch = self.epochs[self.at];
                self.phase = SweepPhase::Cleaning;
                SweepAction::Cleanup { epoch }
            },
            (SweepPhase::Reaping, SweepEvent::Reaped(Err(e))) => {
                self.phase = SweepPhase::Finished;
                SweepAction::Done(Err(Error::Process(e)))
            },
            (SweepPhase::Cleaning, SweepEvent::Cleaned(Ok(()))) => {
                let n: usize = self.epochs.len();
                let next: usize = self.at + 1;
                if next < n {
                    self.at = next;
                    self.phase = SweepPhase::Looking;
                    let epoch = self.epochs[next];
                    SweepAction::Look { epoch }
                } else {
                    self.phase = SweepPhase::Finished;
                    SweepAction::Done(Ok(highest_epoch(&self.epochs)))
                }
            },
            (SweepPhase::Cleaning, SweepEvent::Cleaned(Err(e))) => {
                self.phase = SweepPhase::Finished;
                SweepAction::Done(Err(e))
            },
            _ => SweepAction::Ignore,
        }
    }
}

// ---------------------------------------------------------------------------
// Laws
// ---------------------------------------------------------------------------

/// Files of an epoch that has a pid record are removed only once the process that
/// the record names was dealt with.
pub proof fn law_recorded_orphans_are_reaped_first(
    pre: SweepFlow,
    event: SweepEvent,
    post: SweepFlow,
    action: SweepAction,
)
    requires
        sweep_step(pre, event, post, action),
        action is Cleanup,
    ensures
        (pre.phase is Looking && event == SweepEvent::Looked(Ok(false))) || (pre.phase is Reaping
            && (event matches SweepEvent::Reaped(Ok(_)))),
{
}

/// No manager is set up without a runtime directory, nor with a timeout of zero.
pub proof fn law_directory_and_timeouts_are_required(options: ManagerOptions, r: Result<(), Error>)
    requires
        options_outcome(options, r),
        r is Ok,
    ensures
        options.runtime_dir is Some,
        options.runtime_dir->0@.len() > 0,
        options.control_timeout@ > 0,
        options.reconcile_timeout@ > 0,
        options.stop_timeout@ > 0,
        options.controller_template matches Some(t) ==> endpoint::names_epoch(t@),
{
}

} // verus!
