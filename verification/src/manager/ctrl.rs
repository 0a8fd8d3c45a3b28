//! What the manager knows: what it tells, what it runs, and which epochs it is
//! not sure of.

use std::sync::Arc;

use vstd::prelude::*;
use vstd::string::*;

use crate::clash_api::client::Host;
use crate::error;
use crate::error::Error;
use crate::metadata::feature::FeatureSet;
use crate::spec::{InstanceSpec, ResolvedController};
use crate::state;
use crate::state::{
    health_same, ConfigRevision, CoreState, CoreStatus, HealthStatus, InstanceState, InstanceStatus,
    RuntimeFeatures, SpecSummary, StopReason,
};
use crate::text;
use crate::text::u64_to_string;
use crate::value::Datum;

verus! {

/// A document, shared.
pub type Document = Arc<Vec<(Datum, Datum)>>;

/// The epoch that the manager runs.
pub struct Active {
    pub source_spec: Arc<InstanceSpec>,
    pub effective_spec: Arc<InstanceSpec>,
    pub controller: Arc<ResolvedController>,
    pub capabilities: FeatureSet,
    pub runtime_features: RuntimeFeatures,
    pub source_document: Document,
    pub effective_document: Document,
    pub revision: ConfigRevision,
}

/// An epoch whose process may still run.
#[derive(Debug)]
pub struct QuarantinedEpoch {
    pub epoch: u64,
    pub reason: String,
    pub death_proven: bool,
}

pub struct Ctrl {
    pub current: Option<Active>,
    pub last_spec: Option<Arc<InstanceSpec>>,
    pub quarantine: Vec<QuarantinedEpoch>,
}

/// What the manager knows. `epoch` is the last epoch that was begun.
pub struct ManagerState {
    pub status: CoreStatus,
    pub ctrl: Ctrl,
    pub epoch: u64,
}

impl ManagerState {
    /// A manager that goes on after the given epoch.
    pub fn new(last_epoch: u64, now_ms: i64) -> (r: ManagerState)
        ensures
            r.status.state == (CoreState::Stopped { reason: None }),
            cleared(r.status),
            r.status.changed_at == now_ms,
            r.ctrl.current is None,
            r.ctrl.last_spec is None,
            r.ctrl.quarantine@.len() == 0,
            r.epoch == last_epoch,
    {
        ManagerState {
            status: CoreStatus::initial(now_ms),
            ctrl: Ctrl { current: None, last_spec: None, quarantine: Vec::new() },
            epoch: last_epoch,
        }
    }
}

// ---------------------------------------------------------------------------
// Publishing
// ---------------------------------------------------------------------------

/// The status tells of no core.
pub open spec fn cleared(status: CoreStatus) -> bool {
    status.health is None && status.spec is None && status.controller is None
        && status.revision is None
}

/// The time of the last change is set exactly when the state changed.
pub open spec fn stamped(pre: CoreStatus, post: CoreStatus, now_ms: i64) -> bool {
    post.changed_at == (if state::same_state(pre.state, post.state) {
        pre.changed_at
    } else {
        now_ms
    })
}

/// Only the status differs.
pub open spec fn only_status(pre: ManagerState, post: ManagerState) -> bool {
    post.ctrl == pre.ctrl && post.epoch == pre.epoch
}

impl ManagerState {
    pub fn publish(
        &mut self,
        state: CoreState,
        health: Option<HealthStatus>,
        spec: Option<SpecSummary>,
        controller: Option<Host>,
        revision: Option<ConfigRevision>,
        now_ms: i64,
    )
        ensures
            only_status(*old(self), *final(self)),
            final(self).status == (CoreStatus {
                state,
                health,
                spec,
                controller,
                revision,
                changed_at: final(self).status.changed_at,
            }),
            stamped(old(self).status, final(self).status, now_ms),
    {
        let changed = !self.status.state.same(&state);
        self.status.state = state;
        self.status.health = health;
        self.status.spec = spec;
        self.status.controller = controller;
        self.status.revision = revision;
        if changed {
            self.status.changed_at = now_ms;
        }
    }

    /// Tells that the core stopped on an error.
    pub fn publish_error(&mut self, error: &Error, now_ms: i64)
        ensures
            only_status(*old(self), *final(self)),
            failed(final(self).status, error::error_text(*error)),
            stamped(old(self).status, final(self).status, now_ms),
    {
        let words = error.message();
        self.publish(
            CoreState::Stopped { reason: Some(StopReason::Error(words)) },
            None,
            None,
            None,
            None,
            now_ms,
        );
    }
}

/// The status tells that the core stopped, in these words.
pub open spec fn failed(status: CoreStatus, words: Seq<char>) -> bool {
    &&& status.state matches CoreState::Stopped { reason: Some(StopReason::Error(m)) } && m@
        == words
    &&& cleared(status)
}

/// Where an instance stands, as the manager tells it.
pub open spec fn mapped_state(epoch: u64, state: InstanceState) -> CoreState {
    match state {
        InstanceState::Starting => CoreState::Starting { epoch },
        InstanceState::Running { pid } => CoreState::Running { epoch, pid },
        InstanceState::Restarting { attempt } => CoreState::Restarting { epoch, attempt },
        InstanceState::Stopping => CoreState::Stopping { epoch },
        InstanceState::Stopped(reason) => CoreState::Stopped { reason: Some(reason) },
    }
}

pub fn map_instance_state(epoch: u64, state: &InstanceState) -> (r: CoreState)
    ensures
        r == mapped_state(epoch, *state),
{
    match state {
        InstanceState::Starting => CoreState::Starting { epoch },
        InstanceState::Running { pid } => CoreState::Running { epoch, pid: *pid },
        InstanceState::Restarting { attempt } => CoreState::Restarting { epoch, attempt: *attempt },
        InstanceState::Stopping => CoreState::Stopping { epoch },
        InstanceState::Stopped(reason) => CoreState::Stopped { reason: Some(reason.copy()) },
    }
}

/// The status tells of a revision of the epoch.
pub open spec fn tells_of(status: CoreStatus, epoch: u64) -> bool {
    status.revision matches Some(r) && r.epoch == epoch
}

/// What the news of an instance make of the status: nothing, where the status
/// tells of another epoch or the news are none.
pub open spec fn forwarded(
    pre: CoreStatus,
    epoch: u64,
    instance: InstanceStatus,
    post: CoreStatus,
    now_ms: i64,
) -> bool {
    let next = mapped_state(epoch, instance.state);
    if !tells_of(pre, epoch) || (state::same_state(pre.state, next) && state::same_health(
        pre.health,
        instance.health,
    )) {
        post == pre
    } else {
        &&& post == (CoreStatus {
            state: next,
            health: instance.health,
            changed_at: post.changed_at,
            ..pre
        })
        &&& stamped(pre, post, now_ms)
    }
}

impl ManagerState {
    /// Takes over the news of the instance of an epoch; says whether anything
    /// changed.
    pub fn forward(&mut self, epoch: u64, instance: InstanceStatus, now_ms: i64) -> (r: bool)
        ensures
            only_status(*old(self), *final(self)),
            forwarded(old(self).status, epoch, instance, final(self).status, now_ms),
            r == !(!tells_of(old(self).status, epoch) || (state::same_state(
                old(self).status.state,
                mapped_state(epoch, instance.state),
            ) && state::same_health(old(self).status.health, instance.health))),
    {
        let ours = match &self.status.revision {
            Some(revision) => revision.epoch == epoch,
            None => false,
        };
        if !ours {
            return false;
        }
        let next = map_instance_state(epoch, &instance.state);
        let lifecycle_changed = !self.status.state.same(&next);
        let health_changed = !health_same(&self.status.health, &instance.health);
        if !lifecycle_changed && !health_changed {
            return false;
        }
        self.status.state = next;
        self.status.health = instance.health;
        if lifecycle_changed {
            self.status.changed_at = now_ms;
        }
        true
    }
}

/// News of an epoch that the manager has left change nothing.
pub proof fn law_stale_news_are_dropped(
    pre: CoreStatus,
    epoch: u64,
    instance: InstanceStatus,
    post: CoreStatus,
    now_ms: i64,
)
    requires
        forwarded(pre, epoch, instance, post, now_ms),
        !tells_of(pre, epoch),
    ensures
        post == pre,
{
}

// ---------------------------------------------------------------------------
// Quarantine
// ---------------------------------------------------------------------------

pub ghost struct Quarantined {
    pub epoch: u64,
    pub reason: Seq<char>,
    pub death_proven: bool,
}

impl View for QuarantinedEpoch {
    type V = Quarantined;

    open spec fn view(&self) -> Quarantined {
        Quarantined { epoch: self.epoch, reason: self.reason@, death_proven: self.death_proven }
    }
}

pub open spec fn quarantined(entries: Seq<QuarantinedEpoch>) -> Seq<Quarantined> {
    Seq::new(entries.len(), |i: int| entries[i]@)
}

/// The index of the entry of an epoch, or the number of entries.
pub open spec fn entry_of(q: Seq<Quarantined>, epoch: u64) -> int
    decreases q.len(),
{
    if q.len() == 0 {
        0
    } else if q[0].epoch == epoch {
        0
    } else {
        1 + entry_of(q.drop_first(), epoch)
    }
}

/// The entries with one for the epoch: a new reason where there is one already.
pub open spec fn recorded(q: Seq<Quarantined>, epoch: u64, reason: Seq<char>) -> Seq<Quarantined> {
    let i = entry_of(q, epoch);
    if i < q.len() {
        q.update(i, Quarantined { reason, ..q[i] })
    } else {
        q.push(Quarantined { epoch, reason, death_proven: false })
    }
}

proof fn lemma_entry_of(q: Seq<Quarantined>, epoch: u64, r: int)
    requires
        0 <= r <= q.len(),
        forall|j: int| 0 <= j < r ==> (#[trigger] q[j]).epoch != epoch,
        r < q.len() ==> q[r].epoch == epoch,
    ensures
        entry_of(q, epoch) == r,
    decreases q.len(),
{
    if q.len() > 0 && r > 0 {
        assert(q[0].epoch != epoch);
        assert forall|j: int| 0 <= j < r - 1 implies (#[trigger] q.drop_first()[j]).epoch
            != epoch by {
            assert(q.drop_first()[j] == q[j + 1]);
        }
        lemma_entry_of(q.drop_first(), epoch, r - 1);
    }
}

pub proof fn lemma_entry_bounds(q: Seq<Quarantined>, epoch: u64)
    ensures
        0 <= entry_of(q, epoch) <= q.len(),
        forall|j: int| 0 <= j < entry_of(q, epoch) ==> (#[trigger] q[j]).epoch != epoch,
        entry_of(q, epoch) < q.len() ==> q[entry_of(q, epoch)].epoch == epoch,
    decreases q.len(),
{
    if q.len() > 0 && q[0].epoch != epoch {
        lemma_entry_bounds(q.drop_first(), epoch);
        assert forall|j: int| 0 <= j < entry_of(q, epoch) implies (#[trigger] q[j]).epoch
            != epoch by {
            if j > 0 {
                assert(q[j] == q.drop_first()[j - 1]);
            }
        }
    }
}

pub fn find_entry(entries: &Vec<QuarantinedEpoch>, epoch: u64) -> (r: usize)
    ensures
        r == entry_of(quarantined(entries@), epoch),
        r <= entries@.len(),
{
    let n: usize = entries.len();
    let mut i: usize = 0;
    while i < n
        invariant
            n == entries@.len(),
            i <= n,
            forall|j: int| 0 <= j < i ==> (#[trigger] quarantined(entries@)[j]).epoch != epoch,
        decreases n - i,
    {
        assert(quarantined(entries@)[i as int] == entries@[i as int]@);
        if entries[i].epoch == epoch {
            proof {
                lemma_entry_of(quarantined(entries@), epoch, i as int);
            }
            return i;
        }
        i += 1;
    }
    proof {
        lemma_entry_of(quarantined(entries@), epoch, i as int);
    }
    i
}

pub fn record_quarantine(entries: &mut Vec<QuarantinedEpoch>, epoch: u64, reason: String)
    ensures
        quarantined(final(entries)@) == recorded(quarantined(old(entries)@), epoch, reason@),
{
    let i = find_entry(entries, epoch);
    let ghost before = entries@;
    if i < entries.len() {
        let death_proven = entries[i].death_proven;
        let entry = QuarantinedEpoch { epoch, reason, death_proven };
        proof {
            lemma_entry_bounds(quarantined(before), epoch);
            assert(quarantined(before)[i as int] == before[i as int]@);
        }
        entries.set(i, entry);
        assert(quarantined(entries@) =~= recorded(quarantined(before), epoch, reason@));
    } else {
        entries.push(QuarantinedEpoch { epoch, reason, death_proven: false });
        assert(quarantined(entries@) =~= recorded(quarantined(before), epoch, reason@));
    }
}

/// No epoch has two entries.
pub open spec fn one_each(q: Seq<Quarantined>) -> bool {
    forall|i: int, j: int| 0 <= i < j < q.len() ==> q[i].epoch != q[j].epoch
}

/// Recording an epoch keeps one entry for each, and there is one for the epoch.
pub proof fn law_one_entry_per_epoch(q: Seq<Quarantined>, epoch: u64, reason: Seq<char>)
    requires
        one_each(q),
    ensures
        one_each(recorded(q, epoch, reason)),
        entry_of(recorded(q, epoch, reason), epoch) < recorded(q, epoch, reason).len(),
        recorded(q, epoch, reason)[entry_of(recorded(q, epoch, reason), epoch)].reason == reason,
{
    lemma_entry_bounds(q, epoch);
    let i = entry_of(q, epoch);
    let out = recorded(q, epoch, reason);
    assert forall|j: int| 0 <= j < i implies (#[trigger] out[j]).epoch != epoch by {
        assert(out[j] == q[j]);
    }
    lemma_entry_of(out, epoch, i);
}

/// The numbers of the epochs, with commas between them.
pub open spec fn epoch_list(q: Seq<Quarantined>) -> Seq<char>
    decreases q.len(),
{
    if q.len() == 0 {
        seq![]
    } else if q.len() == 1 {
        text::decimal(q[0].epoch as nat)
    } else {
        epoch_list(q.drop_last()) + ", "@ + text::decimal(q.last().epoch as nat)
    }
}

/// Why a manager is quarantined.
pub open spec fn quarantine_reason(q: Seq<Quarantined>) -> Seq<char> {
    if q.len() == 1 {
        q[0].reason
    } else {
        q[0].reason + "; additional uncertain epochs: "@ + epoch_list(q)
    }
}

/// What a quarantined manager answers.
pub open spec fn answers_quarantined(q: Seq<Quarantined>, e: Error) -> bool {
    e matches Error::ManagerQuarantined { epoch, reason } && epoch == q[0].epoch && reason@
        == quarantine_reason(q)
}

fn list_epochs(entries: &Vec<QuarantinedEpoch>) -> (r: String)
    ensures
        r@ == epoch_list(quarantined(entries@)),
{
    let ghost all = quarantined(entries@);
    let n: usize = entries.len();
    let mut out = String::new();
    let mut i: usize = 0;
    assert(all.take(0) =~= Seq::empty());
    while i < n
        invariant
            n == entries@.len(),
            all == quarantined(entries@),
            i <= n,
            out@ == epoch_list(all.take(i as int)),
        decreases n - i,
    {
        let ghost before = out@;
        proof {
            assert(all.take(i + 1).drop_last() =~= all.take(i as int));
            assert(all.take(i + 1).last() == entries@[i as int]@);
            assert(all.take(i + 1)[0] == all[0]);
        }
        if i > 0 {
            out.append(", ");
        }
        out.append(u64_to_string(entries[i].epoch).as_str());
        proof {
            if i == 0 {
                assert(out@ =~= text::decimal(all[0].epoch as nat));
            }
        }
        i += 1;
    }
    assert(all.take(n as int) =~= all);
    out
}

pub fn quarantine_error(entries: &Vec<QuarantinedEpoch>) -> (r: Option<Error>)
    ensures
        match r {
            None => entries@.len() == 0,
            Some(e) => entries@.len() > 0 && answers_quarantined(quarantined(entries@), e),
        },
{
    let n: usize = entries.len();
    if n == 0 {
        return None;
    }
    assert(quarantined(entries@)[0] == entries@[0]@);
    let mut reason = entries[0].reason.clone();
    if n > 1 {
        reason.append("; additional uncertain epochs: ");
        reason.append(list_epochs(entries).as_str());
    }
    Some(Error::ManagerQuarantined { epoch: entries[0].epoch, reason })
}

/// Nothing is done while an epoch is quarantined.
pub fn reject_quarantine(ctrl: &Ctrl) -> (r: Result<(), Error>)
    ensures
        match r {
            Ok(()) => ctrl.quarantine@.len() == 0,
            Err(e) => ctrl.quarantine@.len() > 0 && answers_quarantined(
                quarantined(ctrl.quarantine@),
                e,
            ),
        },
{
    match quarantine_error(&ctrl.quarantine) {
        Some(error) => Err(error),
        None => Ok(()),
    }
}

/// The epoch is quarantined for the given reason, and the status says so. Nothing
/// else changed.
pub open spec fn latched(
    pre: ManagerState,
    epoch: u64,
    reason: Seq<char>,
    post: ManagerState,
    now_ms: i64,
) -> bool {
    let q = quarantined(post.ctrl.quarantine@);
    &&& post.ctrl.current == pre.ctrl.current
    &&& post.ctrl.last_spec == pre.ctrl.last_spec
    &&& post.epoch == pre.epoch
    &&& q == recorded(quarantined(pre.ctrl.quarantine@), epoch, reason)
    &&& q.len() > 0
    &&& failed(
        post.status,
        "core manager is quarantined by epoch "@ + text::decimal(q[0].epoch as nat) + ": "@
            + quarantine_reason(q),
    )
    &&& stamped(pre.status, post.status, now_ms)
}

impl ManagerState {
    pub fn latch_quarantine(&mut self, epoch: u64, error: &Error, now_ms: i64)
        ensures
            latched(*old(self), epoch, error::error_text(*error), *final(self), now_ms),
    {
        record_quarantine(&mut self.ctrl.quarantine, epoch, error.message());
        assert(quarantined(self.ctrl.quarantine@).len() == self.ctrl.quarantine@.len());
        proof {
            lemma_entry_bounds(quarantined(old(self).ctrl.quarantine@), epoch);
        }
        if let Some(quarantine) = quarantine_error(&self.ctrl.quarantine) {
            self.publish_error(&quarantine, now_ms);
        }
    }
}

/// A manager that is quarantined stays so, whatever else is quarantined.
pub proof fn law_quarantine_only_grows(
    pre: ManagerState,
    epoch: u64,
    reason: Seq<char>,
    post: ManagerState,
    now_ms: i64,
)
    requires
        latched(pre, epoch, reason, post, now_ms),
    ensures
        post.ctrl.quarantine@.len() > 0,
        post.ctrl.quarantine@.len() >= pre.ctrl.quarantine@.len(),
        forall|i: int|
            0 <= i < pre.ctrl.quarantine@.len() ==> (#[trigger] quarantined(
                post.ctrl.quarantine@,
            )[i]).epoch == quarantined(pre.ctrl.quarantine@)[i].epoch,
{
    assert(quarantined(post.ctrl.quarantine@).len() == post.ctrl.quarantine@.len());
    assert(quarantined(pre.ctrl.quarantine@).len() == pre.ctrl.quarantine@.len());
    lemma_entry_bounds(quarantined(pre.ctrl.quarantine@), epoch);
}

} // verus!
