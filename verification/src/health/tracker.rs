//! How the answers of probes add up to a verdict.

use vstd::prelude::*;
use vstd::string::*;

use crate::health::policy;
use crate::health::policy::HealthPolicy;
use crate::health::probe::ProbeResult;
use crate::text;
use crate::text::clip;
use crate::time::Duration;

verus! {

/// The longest detail of a failure that is kept, in bytes.
pub const MAX_LAST_ERROR_BYTES: usize = 512;

#[derive(Debug, Clone, Copy, PartialEq, Eq, Structural)]
pub enum TrackerState {
    Starting,
    Healthy,
    Unhealthy,
}

#[derive(Debug, PartialEq, Eq)]
pub struct TrackerUpdate {
    pub state: TrackerState,
    pub transitioned: bool,
    pub consecutive_failures: u32,
    pub last_error: Option<String>,
}

/// Keeps count of the answers of the probes of one run.
pub struct HealthTracker {
    policy: HealthPolicy,
    started_at: Duration,
    grace_ended: bool,
    state: TrackerState,
    consecutive_failures: u32,
    consecutive_successes: u32,
    last_error: Option<String>,
}

pub ghost struct TrackerView {
    pub policy: policy::PolicyView,
    pub started_at: nat,
    pub grace_ended: bool,
    pub state: TrackerState,
    pub failures: u32,
    pub successes: u32,
    pub last_error: Option<Seq<char>>,
}

pub open spec fn plus_one(n: u32) -> u32 {
    if n == u32::MAX {
        n
    } else {
        (n + 1) as u32
    }
}

/// The detail of a failure as it is kept.
pub open spec fn kept_detail(detail: Option<String>) -> Option<Seq<char>> {
    match detail {
        Some(d) => Some(text::clipped(d@, MAX_LAST_ERROR_BYTES as int)),
        None => None,
    }
}

/// Failures do not count yet.
pub open spec fn in_grace(t: TrackerView, now: nat) -> bool {
    !t.grace_ended && now < t.started_at + t.policy.start_period
}

/// What an answer makes of a tracker.
pub open spec fn observed(t: TrackerView, now: nat, result: ProbeResult) -> TrackerView {
    match result {
        ProbeResult::Healthy => {
            let counted = plus_one(t.successes);
            let healthy = t.state is Healthy || counted >= t.policy.successes;
            TrackerView {
                grace_ended: true,
                failures: 0,
                last_error: None,
                state: if healthy {
                    TrackerState::Healthy
                } else {
                    t.state
                },
                successes: if healthy {
                    0
                } else {
                    counted
                },
                ..t
            }
        },
        ProbeResult::Unhealthy { detail } => if in_grace(t, now) {
            TrackerView { successes: 0, last_error: kept_detail(detail), ..t }
        } else {
            let counted = plus_one(t.failures);
            TrackerView {
                successes: 0,
                last_error: kept_detail(detail),
                failures: counted,
                state: if counted >= t.policy.failures {
                    TrackerState::Unhealthy
                } else {
                    t.state
                },
                ..t
            }
        },
    }
}

pub fn cap_detail(detail: &str) -> (r: String)
    ensures
        r@ == text::clipped(detail@, MAX_LAST_ERROR_BYTES as int),
        text::utf8_len(r@) <= MAX_LAST_ERROR_BYTES,
{
    proof {
        text::law_clipped(detail@, MAX_LAST_ERROR_BYTES as int);
    }
    clip(detail, MAX_LAST_ERROR_BYTES)
}

impl HealthTracker {
    pub closed spec fn view(&self) -> TrackerView {
        TrackerView {
            policy: self.policy@,
            started_at: self.started_at@,
            grace_ended: self.grace_ended,
            state: self.state,
            failures: self.consecutive_failures,
            successes: self.consecutive_successes,
            last_error: match self.last_error {
                Some(e) => Some(e@),
                None => None,
            },
        }
    }

    /// Times are measured on one clock that does not run backwards.
    pub fn new(policy: HealthPolicy, started_at: Duration) -> (r: HealthTracker)
        ensures
            r@ == fresh(policy@, started_at@),
    {
        HealthTracker {
            policy,
            started_at,
            grace_ended: false,
            state: TrackerState::Starting,
            consecutive_failures: 0,
            consecutive_successes: 0,
            last_error: None,
        }
    }

    pub fn observe(&mut self, now: Duration, result: &ProbeResult) -> (r: TrackerUpdate)
        ensures
            final(self)@ == observed(old(self)@, now@, *result),
            r.state == final(self)@.state,
            r.transitioned == (old(self)@.state != final(self)@.state),
            r.consecutive_failures == final(self)@.failures,
            final(self)@.last_error == (match r.last_error {
                Some(e) => Some(e@),
                None => None,
            }),
    {
        let previous = self.state;
        match result {
            ProbeResult::Healthy => {
                self.grace_ended = true;
                self.consecutive_failures = 0;
                self.last_error = None;
                if self.state == TrackerState::Healthy {
                    self.consecutive_successes = 0;
                } else {
                    self.consecutive_successes = self.consecutive_successes.saturating_add(1);
                    if self.consecutive_successes >= self.policy.success_threshold().get() {
                        self.state = TrackerState::Healthy;
                        self.consecutive_successes = 0;
                    }
                }
            },
            ProbeResult::Unhealthy { detail } => {
                self.consecutive_successes = 0;
                self.last_error = match detail {
                    Some(detail) => Some(cap_detail(detail.as_str())),
                    None => None,
                };
                let start: u128 = self.started_at.as_nanos();
                let period: u128 = self.policy.start_period().as_nanos();
                let grace_active = !self.grace_ended && now.as_nanos() < start + period;
                if !grace_active {
                    self.consecutive_failures = self.consecutive_failures.saturating_add(1);
                    if self.state != TrackerState::Unhealthy && self.consecutive_failures
                        >= self.policy.failure_threshold().get() {
                        self.state = TrackerState::Unhealthy;
                    }
                }
            },
        }
        let last_error = match &self.last_error {
            Some(error) => Some(error.clone()),
            None => None,
        };
        TrackerUpdate {
            state: self.state,
            transitioned: previous != self.state,
            consecutive_failures: self.consecutive_failures,
            last_error,
        }
    }
}

/// What a run of answers, each with its time, makes of a tracker.
pub open spec fn observed_all(t: TrackerView, answers: Seq<(nat, ProbeResult)>) -> TrackerView
    decreases answers.len(),
{
    if answers.len() == 0 {
        t
    } else {
        observed(observed_all(t, answers.drop_last()), answers.last().0, answers.last().1)
    }
}

/// A policy counts at least one answer either way.
pub open spec fn counts(p: policy::PolicyView) -> bool {
    p.failures > 0 && p.successes > 0
}

/// A core that was well is called unhealthy exactly when as many answers in a row
/// as the policy asks for were failures.
pub proof fn law_failures_in_a_row(t: TrackerView, answers: Seq<(nat, ProbeResult)>)
    requires
        t.state is Healthy,
        t.grace_ended,
        t.failures == 0,
        counts(t.policy),
        forall|i: int| 0 <= i < answers.len() ==> (#[trigger] answers[i]).1 is Unhealthy,
    ensures
        observed_all(t, answers).state is Unhealthy <==> answers.len() >= t.policy.failures,
        answers.len() < t.policy.failures ==> observed_all(t, answers).state is Healthy,
        observed_all(t, answers).failures == (if answers.len() > u32::MAX {
            u32::MAX as int
        } else {
            answers.len() as int
        }),
    decreases answers.len(),
{
    if answers.len() > 0 {
        let init = answers.drop_last();
        assert forall|i: int| 0 <= i < init.len() implies (#[trigger] init[i]).1 is Unhealthy by {
            assert(init[i] == answers[i]);
        }
        law_failures_in_a_row(t, init);
        lemma_observed_all_keeps(t, init);
        assert(answers[answers.len() - 1].1 is Unhealthy);
    }
}

/// A core that was not well is called healthy exactly when as many answers in a
/// row as the policy asks for were successes.
pub proof fn law_successes_in_a_row(t: TrackerView, answers: Seq<(nat, ProbeResult)>)
    requires
        !(t.state is Healthy),
        t.successes == 0,
        counts(t.policy),
        forall|i: int| 0 <= i < answers.len() ==> (#[trigger] answers[i]).1 is Healthy,
    ensures
        observed_all(t, answers).state is Healthy <==> answers.len() >= t.policy.successes,
        answers.len() < t.policy.successes ==> observed_all(t, answers).state == t.state
            && observed_all(t, answers).successes == answers.len(),
    decreases answers.len(),
{
    if answers.len() > 0 {
        let init = answers.drop_last();
        assert forall|i: int| 0 <= i < init.len() implies (#[trigger] init[i]).1 is Healthy by {
            assert(init[i] == answers[i]);
        }
        law_successes_in_a_row(t, init);
        lemma_observed_all_keeps(t, init);
        assert(answers[answers.len() - 1].1 is Healthy);
    }
}

/// The policy and the start of a tracker never change, and grace does not come
/// back.
pub proof fn lemma_observed_all_keeps(t: TrackerView, answers: Seq<(nat, ProbeResult)>)
    ensures
        observed_all(t, answers).policy == t.policy,
        observed_all(t, answers).started_at == t.started_at,
        t.grace_ended ==> observed_all(t, answers).grace_ended,
    decreases answers.len(),
{
    if answers.len() > 0 {
        lemma_observed_all_keeps(t, answers.drop_last());
    }
}

/// Until the start period is over, failures count for nothing: only the last
/// error is kept.
pub proof fn law_start_period_ignores_failures(
    t: TrackerView,
    answers: Seq<(nat, ProbeResult)>,
)
    requires
        !t.grace_ended,
        forall|i: int|
            0 <= i < answers.len() ==> (#[trigger] answers[i]).1 is Unhealthy && answers[i].0
                < t.started_at + t.policy.start_period,
    ensures
        observed_all(t, answers).state == t.state,
        observed_all(t, answers).failures == t.failures,
        !observed_all(t, answers).grace_ended,
    decreases answers.len(),
{
    if answers.len() > 0 {
        let init = answers.drop_last();
        assert forall|i: int| 0 <= i < init.len() implies (#[trigger] init[i]).1 is Unhealthy
            && init[i].0 < t.started_at + t.policy.start_period by {
            assert(init[i] == answers[i]);
        }
        law_start_period_ignores_failures(t, init);
        lemma_observed_all_keeps(t, init);
        assert(answers[answers.len() - 1].1 is Unhealthy);
    }
}

/// One success ends the start period for good: from then on every failure counts.
pub proof fn law_success_ends_the_start_period(
    t: TrackerView,
    now: nat,
    answers: Seq<(nat, ProbeResult)>,
    later: nat,
)
    ensures
        observed(t, now, ProbeResult::Healthy).failures == 0,
        !in_grace(observed_all(observed(t, now, ProbeResult::Healthy), answers), later),
{
    lemma_observed_all_keeps(observed(t, now, ProbeResult::Healthy), answers);
}

// ---------------------------------------------------------------------------
// Whole histories
// ---------------------------------------------------------------------------

/// A tracker as it starts.
pub open spec fn fresh(policy: policy::PolicyView, started_at: nat) -> TrackerView {
    TrackerView {
        policy,
        started_at,
        grace_ended: false,
        state: TrackerState::Starting,
        failures: 0,
        successes: 0,
        last_error: None,
    }
}

/// Some answer was a success.
pub open spec fn ever_healthy(answers: Seq<(nat, ProbeResult)>) -> bool {
    exists|i: int| 0 <= i < answers.len() && (#[trigger] answers[i]).1 is Healthy
}

/// How many answers were successes since the last failure.
pub open spec fn healthy_run(answers: Seq<(nat, ProbeResult)>) -> nat
    decreases answers.len(),
{
    if answers.len() == 0 || answers.last().1 is Unhealthy {
        0
    } else {
        healthy_run(answers.drop_last()) + 1
    }
}

/// How many answers were failures since the last success, without those of a start
/// period that was not over: one that no success and no time had ended.
pub open spec fn counted_failures(
    policy: policy::PolicyView,
    started_at: nat,
    answers: Seq<(nat, ProbeResult)>,
) -> nat
    decreases answers.len(),
{
    if answers.len() == 0 || answers.last().1 is Healthy {
        0
    } else {
        let earlier = answers.drop_last();
        let spared = !ever_healthy(earlier) && answers.last().0 < started_at + policy.start_period;
        counted_failures(policy, started_at, earlier) + if spared {
            0nat
        } else {
            1nat
        }
    }
}

proof fn lemma_history(
    policy: policy::PolicyView,
    started_at: nat,
    answers: Seq<(nat, ProbeResult)>,
)
    requires
        counts(policy),
    ensures
        ({
            let t = observed_all(fresh(policy, started_at), answers);
            let counted = counted_failures(policy, started_at, answers);
            &&& t.policy == policy
            &&& t.started_at == started_at
            &&& t.grace_ended == ever_healthy(answers)
            &&& t.failures == (if counted > u32::MAX {
                u32::MAX as int
            } else {
                counted as int
            })
            &&& !(t.state is Healthy) ==> t.successes == healthy_run(answers) && healthy_run(
                answers,
            ) < policy.successes
            &&& counted >= policy.failures ==> t.state is Unhealthy
        }),
    decreases answers.len(),
{
    if answers.len() > 0 {
        let init = answers.drop_last();
        lemma_history(policy, started_at, init);
        lemma_observed_all_keeps(fresh(policy, started_at), answers);
        assert(ever_healthy(answers) == (ever_healthy(init) || answers.last().1 is Healthy)) by {
            if ever_healthy(init) {
                let i = choose|i: int| 0 <= i < init.len() && (#[trigger] init[i]).1 is Healthy;
                assert(answers[i] == init[i]);
            }
            if answers.last().1 is Healthy {
                assert(answers[answers.len() - 1].1 is Healthy);
            }
            if ever_healthy(answers) {
                let i = choose|i: int|
                    0 <= i < answers.len() && (#[trigger] answers[i]).1 is Healthy;
                if i < init.len() {
                    assert(init[i] == answers[i]);
                }
            }
        }
    }
}

/// Over every history of answers: the state changes only as the answers ask for. It
/// becomes healthy exactly at the success that completes the asked number of them in
/// a row, and unhealthy exactly at the failure that completes the asked number since
/// the last success, not counting those of an active start period. No tracker
/// starts again, and a success clears the failures and the last error.
pub proof fn law_state_follows_the_answers(
    policy: policy::PolicyView,
    started_at: nat,
    answers: Seq<(nat, ProbeResult)>,
)
    requires
        counts(policy),
        answers.len() > 0,
    ensures
        ({
            let before = observed_all(fresh(policy, started_at), answers.drop_last());
            let after = observed_all(fresh(policy, started_at), answers);
            let counted = counted_failures(policy, started_at, answers);
            &&& after.state is Starting ==> before.state is Starting
            &&& answers.last().1 is Healthy ==> after.failures == 0 && after.last_error is None
            &&& after.failures == (if counted > u32::MAX {
                u32::MAX as int
            } else {
                counted as int
            })
            &&& !(before.state is Healthy) && after.state is Healthy <==> !(before.state
                is Healthy) && healthy_run(answers) == policy.successes
            &&& !(before.state is Unhealthy) && after.state is Unhealthy <==> !(before.state
                is Unhealthy) && counted == policy.failures
        }),
{
    lemma_history(policy, started_at, answers.drop_last());
    lemma_history(policy, started_at, answers);
}

} // verus!
