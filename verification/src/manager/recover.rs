//! Getting a quarantined manager back: every epoch that may still run is proven
//! dead, and its files are removed.

use vstd::prelude::*;
use vstd::string::*;

use crate::config::endpoint;
use crate::config::runtime_store;
use crate::config::runtime_store::RuntimeConfigStore;
use crate::error;
use crate::error::Error;
use crate::instance::OrphanReapOutcome;
use crate::manager::ctrl;
use crate::manager::ctrl::{ManagerState, QuarantinedEpoch};
use crate::path;
use crate::process::error as process;
use crate::process::error::ProcessError;
use crate::state::CoreState;
use crate::text;
use crate::text::u64_to_string;

verus! {

#[derive(Debug, Clone, Copy, PartialEq, Eq, Structural)]
pub enum RecoverPhase {
    Reaping,
    Cleaning,
    Finished,
}

#[derive(Debug)]
pub enum RecoverEvent {
    /// What became of the process that the record of the epoch names.
    Reaped(Result<OrphanReapOutcome, ProcessError>),
    Cleaned(Result<(), Error>),
}

#[derive(Debug)]
pub enum RecoverAction {
    Reap { epoch: u64 },
    /// Remove the configuration, the pid record and the socket of the epoch.
    Cleanup { epoch: u64 },
    Done(Result<(), Error>),
    /// The event does not belong here.
    Ignore,
}

/// The epochs that are dealt with, one after the other; `at` is the one that is
/// being dealt with.
pub struct RecoverFlow {
    pub epochs: Vec<u64>,
    pub proven: Vec<bool>,
    pub at: usize,
    pub failures: Vec<String>,
    pub phase: RecoverPhase,
}

pub open spec fn epochs_of(q: Seq<ctrl::Quarantined>) -> Seq<u64> {
    Seq::new(q.len(), |i: int| q[i].epoch)
}

pub open spec fn proven_of(q: Seq<ctrl::Quarantined>) -> Seq<bool> {
    Seq::new(q.len(), |i: int| q[i].death_proven)
}

/// The entries with the death of the epoch proven.
pub open spec fn with_proof(q: Seq<ctrl::Quarantined>, epoch: u64) -> Seq<ctrl::Quarantined> {
    let i = ctrl::entry_of(q, epoch);
    if i < q.len() {
        q.update(i, ctrl::Quarantined { death_proven: true, ..q[i] })
    } else {
        q
    }
}

/// The entries of the other epochs.
pub open spec fn without(q: Seq<ctrl::Quarantined>, epoch: u64) -> Seq<ctrl::Quarantined>
    decreases q.len(),
{
    if q.len() == 0 {
        q
    } else {
        let rest = without(q.drop_last(), epoch);
        if q.last().epoch == epoch {
            rest
        } else {
            rest.push(q.last())
        }
    }
}

fn mark_proven(entries: &mut Vec<QuarantinedEpoch>, epoch: u64)
    ensures
        ctrl::quarantined(final(entries)@) == with_proof(ctrl::quarantined(old(entries)@), epoch),
{
    let i = ctrl::find_entry(entries, epoch);
    let ghost before = entries@;
    if i < entries.len() {
        let reason = entries[i].reason.clone();
        let number = entries[i].epoch;
        let entry = QuarantinedEpoch { epoch: number, reason, death_proven: true };
        assert(ctrl::quarantined(before)[i as int] == before[i as int]@);
        entries.set(i, entry);
        assert(ctrl::quarantined(entries@) =~= with_proof(ctrl::quarantined(before), epoch));
    }
}

fn drop_epoch(entries: &mut Vec<QuarantinedEpoch>, epoch: u64)
    ensures
        ctrl::quarantined(final(entries)@) == without(ctrl::quarantined(old(entries)@), epoch),
{
    let mut all: Vec<QuarantinedEpoch> = Vec::new();
    core::mem::swap(entries, &mut all);
    let ghost views = ctrl::quarantined(all@);
    let n: usize = all.len();
    let mut out: Vec<QuarantinedEpoch> = Vec::new();
    let mut i: usize = 0;
    assert(views.take(0) =~= Seq::empty());
    assert(ctrl::quarantined(out@) =~= Seq::empty());
    while i < n
        invariant
            n == all@.len(),
            views == ctrl::quarantined(all@),
            i <= n,
            ctrl::quarantined(out@) == without(views.take(i as int), epoch),
        decreases n - i,
    {
        proof {
            assert(views.take(i + 1).drop_last() =~= views.take(i as int));
            assert(views.take(i + 1).last() == all@[i as int]@);
        }
        if all[i].epoch != epoch {
            let ghost before = out@;
            let entry = QuarantinedEpoch {
                epoch: all[i].epoch,
                reason: all[i].reason.clone(),
                death_proven: all[i].death_proven,
            };
            out.push(entry);
            assert(ctrl::quarantined(out@) =~= ctrl::quarantined(before).push(all@[i as int]@));
        }
        i += 1;
    }
    assert(views.take(n as int) =~= views);
    *entries = out;
}

/// What failed for an epoch.
pub open spec fn failure(epoch: u64, words: Seq<char>) -> Seq<char> {
    "epoch "@ + text::decimal(epoch as nat) + ": "@ + words
}

fn describe(epoch: u64, head: &str, tail: &str) -> (r: String)
    ensures
        r@ == failure(epoch, head@ + tail@),
{
    let mut words = head.to_owned();
    words.append(tail);
    let mut out = "epoch ".to_owned();
    out.append(u64_to_string(epoch).as_str());
    out.append(": ");
    out.append(words.as_str());
    out
}

/// The failures, one after the other.
pub open spec fn all_failures(failures: Seq<Seq<char>>) -> Seq<char>
    decreases failures.len(),
{
    if failures.len() == 0 {
        seq![]
    } else if failures.len() == 1 {
        failures[0]
    } else {
        all_failures(failures.drop_last()) + " | "@ + failures.last()
    }
}

fn join_failures(failures: &Vec<String>) -> (r: String)
    ensures
        r@ == all_failures(text::strings(failures@)),
{
    let ghost all = text::strings(failures@);
    let n: usize = failures.len();
    let mut out = String::new();
    let mut i: usize = 0;
    assert(all.take(0) =~= Seq::empty());
    while i < n
        invariant
            n == failures@.len(),
            all == text::strings(failures@),
            i <= n,
            out@ == all_failures(all.take(i as int)),
        decreases n - i,
    {
        proof {
            assert(all.take(i + 1).drop_last() =~= all.take(i as int));
            assert(all.take(i + 1).last() == failures@[i as int]@);
            assert(all.take(i + 1)[0] == all[0]);
        }
        if i > 0 {
            out.append(" | ");
        }
        out.append(failures[i].as_str());
        proof {
            if i == 0 {
                assert(out@ =~= all[0]);
            }
        }
        i += 1;
    }
    assert(all.take(n as int) =~= all);
    out
}

/// The first epoch that is still quarantined, or zero.
pub open spec fn first_epoch(q: Seq<ctrl::Quarantined>) -> u64 {
    if q.len() == 0 {
        0
    } else {
        q[0].epoch
    }
}

/// How recovery ends: the manager is free again, or it says what is in the way.
pub open spec fn concluded(
    failures: Seq<Seq<char>>,
    before: ManagerState,
    after: ManagerState,
    action: RecoverAction,
    now_ms: i64,
) -> bool {
    let q = ctrl::quarantined(before.ctrl.quarantine@);
    if failures.len() > 0 || q.len() > 0 {
        &&& after == before
        &&& action matches RecoverAction::Done(Err(Error::ManagerQuarantined { epoch, reason }))
            && epoch == first_epoch(q) && reason@ == all_failures(failures)
    } else {
        &&& ctrl::only_status(before, after)
        &&& after.status.state == (CoreState::Stopped { reason: None })
        &&& ctrl::cleared(after.status)
        &&& ctrl::stamped(before.status, after.status, now_ms)
        &&& action matches RecoverAction::Done(Ok(()))
    }
}

/// How recovery goes on with the epoch at `at`, or ends.
pub open spec fn advanced(
    pre: RecoverFlow,
    failures: Seq<Seq<char>>,
    at: int,
    before: ManagerState,
    post: RecoverFlow,
    after: ManagerState,
    action: RecoverAction,
    now_ms: i64,
) -> bool {
    &&& post.epochs == pre.epochs
    &&& post.proven == pre.proven
    &&& text::strings(post.failures@) == failures
    &&& if at >= pre.epochs@.len() {
        post.phase is Finished && concluded(failures, before, after, action, now_ms)
    } else {
        &&& after == before
        &&& post.at == at
        &&& if pre.proven@[at] {
            post.phase is Cleaning && action == (RecoverAction::Cleanup { epoch: pre.epochs@[at] })
        } else {
            post.phase is Reaping && action == (RecoverAction::Reap { epoch: pre.epochs@[at] })
        }
    }
}

/// The manager with other entries in quarantine.
pub open spec fn requarantined(
    before: ManagerState,
    q: Seq<ctrl::Quarantined>,
    middle: ManagerState,
) -> bool {
    &&& middle.status == before.status
    &&& middle.epoch == before.epoch
    &&& middle.ctrl.current == before.ctrl.current
    &&& middle.ctrl.last_spec == before.ctrl.last_spec
    &&& ctrl::quarantined(middle.ctrl.quarantine@) == q
}

/// How recovery goes on.
pub open spec fn recover_step(
    pre: RecoverFlow,
    before: ManagerState,
    event: RecoverEvent,
    post: RecoverFlow,
    after: ManagerState,
    action: RecoverAction,
    now_ms: i64,
) -> bool {
    let epoch = pre.epochs@[pre.at as int];
    let failures = text::strings(pre.failures@);
    let q = ctrl::quarantined(before.ctrl.quarantine@);
    match (pre.phase, event) {
        (RecoverPhase::Reaping, RecoverEvent::Reaped(Ok(outcome))) => if outcome is NotFound {
            advanced(
                pre,
                failures.push(failure(epoch, "authoritative pid record is unavailable"@)),
                pre.at + 1,
                before,
                post,
                after,
                action,
                now_ms,
            )
        } else {
            &&& requarantined(before, with_proof(q, epoch), after)
            &&& post.epochs == pre.epochs
            &&& post.proven == pre.proven
            &&& post.failures@ == pre.failures@
            &&& post.at == pre.at
            &&& post.phase is Cleaning
            &&& action == (RecoverAction::Cleanup { epoch })
        },
        (RecoverPhase::Reaping, RecoverEvent::Reaped(Err(e))) => advanced(
            pre,
            failures.push(
                failure(epoch, "recovery failed: "@ + process::process_error_text(e)),
            ),
            pre.at + 1,
            before,
            post,
            after,
            action,
            now_ms,
        ),
        (RecoverPhase::Cleaning, RecoverEvent::Cleaned(Err(e))) => advanced(
            pre,
            failures.push(
                failure(epoch, "artifact cleanup failed: "@ + error::error_text(e)),
            ),
            pre.at + 1,
            before,
            post,
            after,
            action,
            now_ms,
        ),
        (RecoverPhase::Cleaning, RecoverEvent::Cleaned(Ok(()))) => exists|middle: ManagerState|
            requarantined(before, without(q, epoch), middle) && #[trigger] advanced(
                pre,
                failures,
                pre.at + 1,
                middle,
                post,
                after,
                action,
                now_ms,
            ),
        _ => after == before && post == pre && action is Ignore,
    }
}

impl RecoverFlow {
    pub open spec fn wf(&self) -> bool {
        &&& self.proven@.len() == self.epochs@.len()
        &&& self.phase is Finished || self.at < self.epochs@.len()
    }

    /// A manager that is not quarantined has nothing to recover.
    pub fn begin(state: &mut ManagerState, now_ms: i64) -> (r: (RecoverFlow, RecoverAction))
        ensures
            r.0.wf(),
            if old(state).ctrl.quarantine@.len() == 0 {
                *final(state) == *old(state) && r.0.phase is Finished && (r.1
                    matches RecoverAction::Done(Ok(())))
            } else {
                let q = ctrl::quarantined(old(state).ctrl.quarantine@);
                &&& r.0.epochs@ == epochs_of(q)
                &&& r.0.proven@ == proven_of(q)
                &&& r.0.at == 0
                &&& r.0.failures@.len() == 0
                &&& *final(state) == *old(state)
                &&& if q[0].death_proven {
                    r.0.phase is Cleaning && r.1 == (RecoverAction::Cleanup { epoch: q[0].epoch })
                } else {
                    r.0.phase is Reaping && r.1 == (RecoverAction::Reap { epoch: q[0].epoch })
                }
            },
    {
        let n: usize = state.ctrl.quarantine.len();
        let ghost q = ctrl::quarantined(state.ctrl.quarantine@);
        let mut epochs: Vec<u64> = Vec::new();
        let mut proven: Vec<bool> = Vec::new();
        let mut i: usize = 0;
        assert(epochs_of(q.take(0)) =~= epochs@);
        assert(proven_of(q.take(0)) =~= proven@);
        while i < n
            invariant
                n == state.ctrl.quarantine@.len(),
                q == ctrl::quarantined(state.ctrl.quarantine@),
                i <= n,
                epochs@ == epochs_of(q.take(i as int)),
                proven@ == proven_of(q.take(i as int)),
            decreases n - i,
        {
            assert(q[i as int] == state.ctrl.quarantine@[i as int]@);
            epochs.push(state.ctrl.quarantine[i].epoch);
            proven.push(state.ctrl.quarantine[i].death_proven);
            assert(epochs@ =~= epochs_of(q.take(i + 1)));
            assert(proven@ =~= proven_of(q.take(i + 1)));
            i += 1;
        }
        assert(q.take(n as int) =~= q);
        let failures: Vec<String> = Vec::new();
        if n == 0 {
            let flow = RecoverFlow {
                epochs,
                proven,
                at: 0,
                failures,
                phase: RecoverPhase::Finished,
            };
            return (flow, RecoverAction::Done(Ok(())));
        }
        let epoch = epochs[0];
        let dead = proven[0];
        if dead {
            let flow = RecoverFlow {
                epochs,
                proven,
                at: 0,
                failures,
                phase: RecoverPhase::Cleaning,
            };
            (flow, RecoverAction::Cleanup { epoch })
        } else {
            let flow = RecoverFlow {
                epochs,
                proven,
                at: 0,
                failures,
                phase: RecoverPhase::Reaping,
            };
            (flow, RecoverAction::Reap { epoch })
        }
    }

    fn advance(&mut self, state: &mut ManagerState, now_ms: i64) -> (r: RecoverAction)
        requires
            old(self).proven@.len() == old(self).epochs@.len(),
            old(self).at < old(self).epochs@.len(),
        ensures
            final(self).wf(),
            advanced(
                *old(self),
                text::strings(old(self).failures@),
                old(self).at + 1,
                *old(state),
                *final(self),
                *final(state),
                r,
                now_ms,
            ),
    {
        let n: usize = self.epochs.len();
        self.at = self.at + 1;
        if self.at < n {
            let epoch = self.epochs[self.at];
            if self.proven[self.at] {
                self.phase = RecoverPhase::Cleaning;
                RecoverAction::Cleanup { epoch }
            } else {
                self.phase = RecoverPhase::Reaping;
                RecoverAction::Reap { epoch }
            }
        } else {
            self.phase = RecoverPhase::Finished;
            assert(text::strings(self.failures@).len() == self.failures@.len());
            assert(ctrl::quarantined(state.ctrl.quarantine@).len()
                == state.ctrl.quarantine@.len());
            if self.failures.len() > 0 || state.ctrl.quarantine.len() > 0 {
                let epoch = if state.ctrl.quarantine.len() > 0 {
                    assert(ctrl::quarantined(state.ctrl.quarantine@)[0]
                        == state.ctrl.quarantine@[0]@);
                    state.ctrl.quarantine[0].epoch
                } else {
                    0
                };
                let reason = join_failures(&self.failures);
                RecoverAction::Done(Err(Error::ManagerQuarantined { epoch, reason }))
            } else {
                state.publish(
                    CoreState::Stopped { reason: None },
                    None,
                    None,
                    None,
                    None,
                    now_ms,
                );
                RecoverAction::Done(Ok(()))
            }
        }
    }

    fn fail(&mut self, state: &mut ManagerState, words: String, now_ms: i64) -> (r: RecoverAction)
        requires
            old(self).proven@.len() == old(self).epochs@.len(),
            old(self).at < old(self).epochs@.len(),
        ensures
            final(self).wf(),
            advanced(
                *old(self),
                text::strings(old(self).failures@).push(words@),
                old(self).at + 1,
                *old(state),
                *final(self),
                *final(state),
                r,
                now_ms,
            ),
    {
        let ghost before = self.failures@;
        self.failures.push(words);
        assert(text::strings(self.failures@) =~= text::strings(before).push(words@));
        self.advance(state, now_ms)
    }

    pub fn step(&mut self, state: &mut ManagerState, event: RecoverEvent, now_ms: i64) -> (r:
        RecoverAction)
        requires
            old(self).wf(),
        ensures
            final(self).wf(),
            recover_step(*old(self), *old(state), event, *final(self), *final(state), r, now_ms),
    {
        match (self.phase, event) {
            (RecoverPhase::Reaping, RecoverEvent::Reaped(Ok(outcome))) => {
                let epoch = self.epochs[self.at];
                if outcome == OrphanReapOutcome::NotFound {
                    let words = describe(epoch, "authoritative pid record is unavailable", "");
                    proof {
                        reveal_strlit("");
                        assert("authoritative pid record is unavailable"@ + ""@
                            =~= "authoritative pid record is unavailable"@);
                    }
                    self.fail(state, words, now_ms)
                } else {
                    mark_proven(&mut state.ctrl.quarantine, epoch);
                    self.phase = RecoverPhase::Cleaning;
                    RecoverAction::Cleanup { epoch }
                }
            },
            (RecoverPhase::Reaping, RecoverEvent::Reaped(Err(e))) => {
                let epoch = self.epochs[self.at];
                let words = describe(epoch, "recovery failed: ", e.message().as_str());
                self.fail(state, words, now_ms)
            },
            (RecoverPhase::Cleaning, RecoverEvent::Cleaned(Err(e))) => {
                let epoch = self.epochs[self.at];
                let words = describe(epoch, "artifact cleanup failed: ", e.message().as_str());
                self.fail(state, words, now_ms)
            },
            (RecoverPhase::Cleaning, RecoverEvent::Cleaned(Ok(()))) => {
                let epoch = self.epochs[self.at];
                drop_epoch(&mut state.ctrl.quarantine, epoch);
                let ghost middle = *state;
                let r = self.advance(state, now_ms);
                assert(advanced(
                    *old(self),
                    text::strings(old(self).failures@),
                    old(self).at + 1,
                    middle,
                    *self,
                    *state,
                    r,
                    now_ms,
                ));
                r
            },
            _ => RecoverAction::Ignore,
        }
    }
}

/// The files of a quarantined epoch that are removed once it is dead: its
/// configuration, its pid record and its socket.
pub fn quarantined_artifacts(store: &RuntimeConfigStore, epoch: u64) -> (r: Vec<String>)
    ensures
        r@.len() == 3,
        path::joins(store.root(), runtime_store::config_name(epoch), r@[0]@),
        path::joins(store.root(), runtime_store::pid_name(epoch), r@[1]@),
        path::joins(store.root(), endpoint::socket_name(epoch), r@[2]@),
{
    let mut paths: Vec<String> = Vec::new();
    paths.push(store.runtime_path(epoch));
    paths.push(store.pid_path(epoch));
    paths.push(store.socket_path(epoch));
    paths
}

/// Whether the removal of a file of a quarantined epoch went well: a file that is
/// not there need not be removed.
pub fn removed(result: Result<(), Error>) -> (r: Result<(), Error>)
    ensures
        match result {
            Err(Error::Io(e)) => if e.kind is NotFound {
                r is Ok
            } else {
                r == result
            },
            _ => r == result,
        },
{
    match result {
        Err(Error::Io(e)) => {
            if matches!(e.kind, crate::io::error::IoKind::NotFound) {
                Ok(())
            } else {
                Err(Error::Io(e))
            }
        },
        other => other,
    }
}

// ---------------------------------------------------------------------------
// Laws
// ---------------------------------------------------------------------------

/// A manager is free again only once nothing is quarantined and nothing failed.
pub proof fn law_latch_opens_only_when_empty(
    pre: RecoverFlow,
    before: ManagerState,
    event: RecoverEvent,
    post: RecoverFlow,
    after: ManagerState,
    action: RecoverAction,
    now_ms: i64,
)
    requires
        recover_step(pre, before, event, post, after, action, now_ms),
        action matches RecoverAction::Done(Ok(())),
    ensures
        after.ctrl.quarantine@.len() == 0,
        pre.failures@.len() == 0,
{
    assert(ctrl::quarantined(after.ctrl.quarantine@).len() == after.ctrl.quarantine@.len());
    assert(text::strings(pre.failures@).len() == pre.failures@.len());
}

/// The files of an epoch are removed only once its death is proven: a missing
/// record is no proof and keeps it in quarantine.
pub proof fn law_cleanup_needs_a_proof_of_death(
    pre: RecoverFlow,
    before: ManagerState,
    event: RecoverEvent,
    post: RecoverFlow,
    after: ManagerState,
    action: RecoverAction,
    now_ms: i64,
)
    requires
        recover_step(pre, before, event, post, after, action, now_ms),
        pre.phase is Reaping,
    ensures
        action matches RecoverAction::Cleanup { epoch } && epoch == pre.epochs@[pre.at as int]
            && post.at == pre.at ==> (event matches RecoverEvent::Reaped(Ok(outcome))
            && !(outcome is NotFound)),
        event matches RecoverEvent::Reaped(Ok(outcome)) && outcome is NotFound
            ==> after.ctrl.quarantine == before.ctrl.quarantine,
{
}

/// An epoch that was cleaned leaves the quarantine, and every other one stays.
pub proof fn law_cleaned_epochs_leave(q: Seq<ctrl::Quarantined>, epoch: u64)
    ensures
        forall|i: int| 0 <= i < without(q, epoch).len() ==> (#[trigger] without(q, epoch)[i]).epoch
            != epoch,
        forall|j: int|
            0 <= j < q.len() && (#[trigger] q[j]).epoch != epoch ==> without(q, epoch).contains(
                q[j],
            ),
        forall|i: int|
            0 <= i < without(q, epoch).len() ==> q.contains(#[trigger] without(q, epoch)[i]),
        without(q, epoch).len() <= q.len(),
    decreases q.len(),
{
    if q.len() > 0 {
        let init = q.drop_last();
        let rest = without(init, epoch);
        let out = without(q, epoch);
        law_cleaned_epochs_leave(init, epoch);
        assert forall|j: int| 0 <= j < q.len() && (#[trigger] q[j]).epoch
            != epoch implies out.contains(q[j]) by {
            if j < init.len() {
                assert(init[j] == q[j]);
                let k = choose|k: int| 0 <= k < rest.len() && rest[k] == q[j];
                assert(out[k] == q[j]);
            } else {
                assert(out[out.len() - 1] == q[j]);
            }
        }
        assert forall|i: int| 0 <= i < out.len() implies q.contains(#[trigger] out[i]) by {
            if i < rest.len() {
                assert(out[i] == rest[i]);
                let k = choose|k: int| 0 <= k < init.len() && init[k] == rest[i];
                assert(q[k] == out[i]);
            } else {
                assert(q[q.len() - 1] == out[i]);
            }
        }
        assert forall|i: int| 0 <= i < out.len() implies (#[trigger] out[i]).epoch != epoch by {
            if i < rest.len() {
                assert(out[i] == rest[i]);
            }
        }
    }
}

/// Recovery keeps one entry for each epoch.
pub proof fn law_recovery_keeps_one_entry_per_epoch(q: Seq<ctrl::Quarantined>, epoch: u64)
    requires
        ctrl::one_each(q),
    ensures
        ctrl::one_each(without(q, epoch)),
        ctrl::one_each(with_proof(q, epoch)),
    decreases q.len(),
{
    ctrl::lemma_entry_bounds(q, epoch);
    let at = ctrl::entry_of(q, epoch);
    let proven = with_proof(q, epoch);
    assert forall|i: int, j: int| 0 <= i < j < proven.len() implies proven[i].epoch
        != proven[j].epoch by {
        if at < q.len() {
            assert(proven[i].epoch == q[i].epoch && proven[j].epoch == q[j].epoch);
        }
    }
    if q.len() > 0 {
        let init = q.drop_last();
        let rest = without(init, epoch);
        let out = without(q, epoch);
        assert(ctrl::one_each(init)) by {
            assert forall|i: int, j: int| 0 <= i < j < init.len() implies init[i].epoch
                != init[j].epoch by {
                assert(init[i] == q[i] && init[j] == q[j]);
            }
        }
        law_recovery_keeps_one_entry_per_epoch(init, epoch);
        law_cleaned_epochs_leave(init, epoch);
        assert forall|i: int, j: int| 0 <= i < j < out.len() implies out[i].epoch
            != out[j].epoch by {
            assert(out[i] == rest[i]);
            if j < rest.len() {
                assert(out[j] == rest[j]);
            } else {
                assert(init.contains(rest[i]));
                let k = choose|k: int| 0 <= k < init.len() && init[k] == rest[i];
                assert(q[k] == init[k]);
                assert(q[k].epoch != q[q.len() - 1].epoch);
            }
        }
    }
}

} // verus!
