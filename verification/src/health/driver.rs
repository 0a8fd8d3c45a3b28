//! When the probes of one run are tried, and how an attempt ends.

use vstd::prelude::*;
use vstd::string::*;

use crate::health::probe;
use crate::health::probe::{ProbePhase, ProbeResult};
use crate::time;
use crate::time::Duration;

verus! {

/// The outcome of one attempt, with the run that it belongs to.
#[derive(Debug, PartialEq, Eq)]
pub struct ProbeObservation {
    pub run_id: u64,
    pub pid: u32,
    pub phase: ProbePhase,
    pub completed_at: Duration,
    pub completed_at_ms: i64,
    pub result: ProbeResult,
}

/// How an attempt ended.
#[derive(Debug)]
pub enum AttemptEnd {
    Answered(ProbeResult),
    TimedOut,
    Cancelled,
}

/// What is made known of an attempt: nothing, where the driver was stopped.
pub open spec fn attempt_outcome(
    end: AttemptEnd,
    timeout: nat,
    r: Option<ProbeResult>,
) -> bool {
    match end {
        AttemptEnd::Answered(result) => r == Some(result),
        AttemptEnd::TimedOut => r matches Some(result) && probe::says(
            result,
            "probe timed out after "@ + time::span_text(timeout),
        ),
        AttemptEnd::Cancelled => r is None,
    }
}

pub fn attempt_result(end: AttemptEnd, timeout: Duration) -> (r: Option<ProbeResult>)
    ensures
        attempt_outcome(end, timeout@, r),
{
    match end {
        AttemptEnd::Answered(result) => Some(result),
        AttemptEnd::TimedOut => {
            let mut words = "probe timed out after ".to_owned();
            words.append(timeout.text().as_str());
            Some(ProbeResult::Unhealthy { detail: Some(words) })
        },
        AttemptEnd::Cancelled => None,
    }
}

/// One attempt of a probe.
#[derive(Debug, Clone, Copy, PartialEq, Eq, Structural)]
pub struct Attempt {
    /// The probe of liveness is tried, not that of readiness.
    pub with_liveness: bool,
    pub phase: ProbePhase,
    /// Somebody asked for it and is answered.
    pub answer: bool,
}

/// What happens to the driver of the probes.
#[derive(Debug)]
pub enum DriverEvent {
    Cancelled,
    UseLiveness { now: Duration },
    ReconcileAsked,
    /// Nobody can ask for anything any more.
    Disconnected,
    /// The time of the next attempt has come.
    Due,
    /// The attempt is over.
    Ended { end: AttemptEnd, now: Duration, now_ms: i64 },
}

/// What the driver does next.
#[derive(Debug, PartialEq, Eq)]
pub enum DriverAction {
    Wait,
    /// Try a probe once.
    Attempt(Attempt),
    /// Answer the request where there is one, then make the outcome known.
    Observe { observation: ProbeObservation, answer: bool },
    /// An attempt is under way: the event is to be handed in again after it.
    Later,
    Stop,
}

/// Which probe is tried again and again.
#[derive(Debug, Clone, Copy, PartialEq, Eq, Structural)]
pub enum Periodic {
    Readiness,
    Liveness,
    Off,
}

/// The driver of the probes of one run: it tries one probe at a time.
#[derive(Debug, Clone, Copy, PartialEq, Eq, Structural)]
pub struct ProbeDriver {
    pub run_id: u64,
    pub pid: u32,
    pub has_liveness: bool,
    pub interval: Duration,
    pub timeout: Duration,
    pub periodic: Periodic,
    pub next_probe: u128,
    /// The attempt that is under way.
    pub attempt: Option<Attempt>,
    pub done: bool,
}

pub ghost struct DriverView {
    pub run_id: u64,
    pub pid: u32,
    pub has_liveness: bool,
    pub interval: nat,
    pub timeout: nat,
    pub periodic: Periodic,
    pub next_probe: nat,
    pub attempt: Option<Attempt>,
    pub done: bool,
}

/// The attempt that a driver makes when it is due.
pub open spec fn due_attempt(periodic: Periodic) -> Option<Attempt> {
    match periodic {
        Periodic::Readiness => Some(
            Attempt { with_liveness: false, phase: ProbePhase::Readiness, answer: false },
        ),
        Periodic::Liveness => Some(
            Attempt { with_liveness: true, phase: ProbePhase::Liveness, answer: false },
        ),
        Periodic::Off => None,
    }
}

/// The attempt that a driver makes when it is asked for one.
pub open spec fn asked_attempt(has_liveness: bool) -> Attempt {
    Attempt { with_liveness: has_liveness, phase: ProbePhase::Reconcile, answer: true }
}

/// What the end of an attempt makes known: its outcome under the run that it
/// belongs to.
pub open spec fn made_known(
    d: DriverView,
    attempt: Attempt,
    end: AttemptEnd,
    now: Duration,
    now_ms: i64,
    action: DriverAction,
) -> bool {
    match action {
        DriverAction::Observe { observation, answer } => {
            &&& attempt_outcome(end, d.timeout, Some(observation.result))
            &&& observation == (ProbeObservation {
                run_id: d.run_id,
                pid: d.pid,
                phase: attempt.phase,
                completed_at: now,
                completed_at_ms: now_ms,
                result: observation.result,
            })
            &&& answer == attempt.answer
        },
        DriverAction::Wait => attempt_outcome(end, d.timeout, None),
        _ => false,
    }
}

/// What an event makes of a driver, and what the driver then does.
pub open spec fn driven(
    d: DriverView,
    event: DriverEvent,
    after: DriverView,
    action: DriverAction,
) -> bool {
    if d.done {
        after == d && action is Stop
    } else if event is Cancelled {
        after == (DriverView { done: true, attempt: None, ..d }) && action is Stop
    } else {
        match (d.attempt, event) {
            (Some(attempt), DriverEvent::Ended { end, now, now_ms }) => {
                &&& after == (DriverView {
                    attempt: None,
                    next_probe: if attempt.answer {
                        d.next_probe
                    } else {
                        now@ + d.interval
                    },
                    ..d
                })
                &&& made_known(d, attempt, end, now, now_ms, action)
            },
            (Some(_), _) => after == d && action is Later,
            (None, DriverEvent::Disconnected) => after == (DriverView { done: true, ..d })
                && action is Stop,
            (None, DriverEvent::UseLiveness { now }) => {
                &&& after == (DriverView {
                    periodic: if d.has_liveness {
                        Periodic::Liveness
                    } else {
                        Periodic::Off
                    },
                    next_probe: now@ + d.interval,
                    ..d
                })
                &&& action is Wait
            },
            (None, DriverEvent::ReconcileAsked) => {
                &&& after == (DriverView { attempt: Some(asked_attempt(d.has_liveness)), ..d })
                &&& action == DriverAction::Attempt(asked_attempt(d.has_liveness))
            },
            (None, DriverEvent::Due) => {
                &&& after == (DriverView { attempt: due_attempt(d.periodic), ..d })
                &&& action == (match due_attempt(d.periodic) {
                    Some(attempt) => DriverAction::Attempt(attempt),
                    None => DriverAction::Wait,
                })
            },
            (None, _) => after == d && action is Wait,
        }
    }
}

impl ProbeDriver {
    pub open spec fn view(&self) -> DriverView {
        DriverView {
            run_id: self.run_id,
            pid: self.pid,
            has_liveness: self.has_liveness,
            interval: self.interval@,
            timeout: self.timeout@,
            periodic: self.periodic,
            next_probe: self.next_probe as nat,
            attempt: self.attempt,
            done: self.done,
        }
    }

    /// A driver probes for readiness at once.
    pub fn start(
        run_id: u64,
        pid: u32,
        has_liveness: bool,
        interval: Duration,
        timeout: Duration,
        now: Duration,
    ) -> (r: ProbeDriver)
        ensures
            r@ == fresh(run_id, pid, has_liveness, interval@, timeout@, now@),
    {
        ProbeDriver {
            run_id,
            pid,
            has_liveness,
            interval,
            timeout,
            periodic: Periodic::Readiness,
            next_probe: now.as_nanos(),
            attempt: None,
            done: false,
        }
    }

    fn put_off(&mut self, now: Duration)
        ensures
            final(self)@ == (DriverView { next_probe: now@ + old(self)@.interval, ..old(self)@ }),
    {
        let start: u128 = now.as_nanos();
        let gap: u128 = self.interval.as_nanos();
        self.next_probe = start + gap;
    }

    fn end(&mut self, attempt: Attempt, end: AttemptEnd, now: Duration, now_ms: i64) -> (r:
        DriverAction)
        requires
            !old(self)@.done,
            old(self)@.attempt == Some(attempt),
        ensures
            driven(old(self)@, DriverEvent::Ended { end, now, now_ms }, final(self)@, r),
    {
        self.attempt = None;
        if !attempt.answer {
            self.put_off(now);
        }
        match attempt_result(end, self.timeout) {
            Some(result) => DriverAction::Observe {
                observation: ProbeObservation {
                    run_id: self.run_id,
                    pid: self.pid,
                    phase: attempt.phase,
                    completed_at: now,
                    completed_at_ms: now_ms,
                    result,
                },
                answer: attempt.answer,
            },
            None => DriverAction::Wait,
        }
    }

    pub fn step(&mut self, event: DriverEvent) -> (r: DriverAction)
        ensures
            driven(old(self)@, event, final(self)@, r),
    {
        if self.done {
            return DriverAction::Stop;
        }
        if let DriverEvent::Cancelled = event {
            self.attempt = None;
            self.done = true;
            return DriverAction::Stop;
        }
        match (self.attempt, event) {
            (Some(attempt), DriverEvent::Ended { end, now, now_ms }) => {
                self.end(attempt, end, now, now_ms)
            },
            (Some(_), _) => DriverAction::Later,
            (None, DriverEvent::Disconnected) => {
                self.done = true;
                DriverAction::Stop
            },
            (None, DriverEvent::UseLiveness { now }) => {
                self.periodic = if self.has_liveness {
                    Periodic::Liveness
                } else {
                    Periodic::Off
                };
                self.put_off(now);
                DriverAction::Wait
            },
            (None, DriverEvent::ReconcileAsked) => {
                let attempt = Attempt {
                    with_liveness: self.has_liveness,
                    phase: ProbePhase::Reconcile,
                    answer: true,
                };
                self.attempt = Some(attempt);
                DriverAction::Attempt(attempt)
            },
            (None, DriverEvent::Due) => {
                let attempt = match self.periodic {
                    Periodic::Readiness => Attempt {
                        with_liveness: false,
                        phase: ProbePhase::Readiness,
                        answer: false,
                    },
                    Periodic::Liveness => Attempt {
                        with_liveness: true,
                        phase: ProbePhase::Liveness,
                        answer: false,
                    },
                    Periodic::Off => {
                        return DriverAction::Wait;
                    },
                };
                self.attempt = Some(attempt);
                DriverAction::Attempt(attempt)
            },
            (None, _) => DriverAction::Wait,
        }
    }

    /// When the next periodic attempt is due. None while nothing is probed.
    pub fn due_at(&self) -> (r: Option<u128>)
        ensures
            r == (if self@.done || self@.periodic is Off {
                None
            } else {
                Some(self@.next_probe as u128)
            }),
    {
        if self.done {
            return None;
        }
        match self.periodic {
            Periodic::Off => None,
            _ => Some(self.next_probe),
        }
    }
}

/// A driver as it starts.
pub open spec fn fresh(
    run_id: u64,
    pid: u32,
    has_liveness: bool,
    interval: nat,
    timeout: nat,
    now: nat,
) -> DriverView {
    DriverView {
        run_id,
        pid,
        has_liveness,
        interval,
        timeout,
        periodic: Periodic::Readiness,
        next_probe: now,
        attempt: None,
        done: false,
    }
}

// ---------------------------------------------------------------------------
// Laws
// ---------------------------------------------------------------------------

/// A run of a driver: `states[i]` is how it stands before event `i`, and
/// `actions[i]` what it then does.
pub open spec fn history(
    states: Seq<DriverView>,
    events: Seq<DriverEvent>,
    actions: Seq<DriverAction>,
) -> bool {
    &&& states.len() == events.len() + 1
    &&& actions.len() == events.len()
    &&& forall|i: int|
        #![trigger actions[i]]
        0 <= i < events.len() ==> driven(states[i], events[i], states[i + 1], actions[i])
}

/// Between two attempts the first one ends: at no time there are two.
pub proof fn law_one_attempt_at_a_time(
    states: Seq<DriverView>,
    events: Seq<DriverEvent>,
    actions: Seq<DriverAction>,
    i: int,
    j: int,
)
    requires
        history(states, events, actions),
        0 <= i < j < events.len(),
        actions[i] is Attempt,
        actions[j] is Attempt,
    ensures
        exists|k: int| i < k < j && (#[trigger] events[k]) is Ended,
{
    if forall|k: int| i < k < j ==> !((#[trigger] events[k]) is Ended) {
        assert(driven(states[i], events[i], states[i + 1], actions[i]));
        lemma_attempt_goes_on(states, events, actions, i + 1, j);
        assert(driven(states[j], events[j], states[j + 1], actions[j]));
    }
}

proof fn lemma_attempt_goes_on(
    states: Seq<DriverView>,
    events: Seq<DriverEvent>,
    actions: Seq<DriverAction>,
    i: int,
    j: int,
)
    requires
        history(states, events, actions),
        0 <= i <= j <= events.len(),
        states[i].done || states[i].attempt is Some,
        forall|k: int| i <= k < j ==> !((#[trigger] events[k]) is Ended),
    ensures
        states[j].done || states[j].attempt is Some,
    decreases j - i,
{
    if i < j {
        assert(driven(states[i], events[i], states[i + 1], actions[i]));
        assert(!(events[i] is Ended));
        lemma_attempt_goes_on(states, events, actions, i + 1, j);
    }
}

/// Every observation is that of the run which the driver was started for, and of an
/// attempt that the driver made: it carries the phase of the last one.
pub proof fn law_observations_belong_to_the_run(
    states: Seq<DriverView>,
    events: Seq<DriverEvent>,
    actions: Seq<DriverAction>,
    j: int,
)
    requires
        history(states, events, actions),
        states[0].attempt is None,
        0 <= j < events.len(),
    ensures
        actions[j] matches DriverAction::Observe { observation, answer } ==> observation.run_id
            == states[0].run_id && observation.pid == states[0].pid && exists|i: int|
            0 <= i < j && #[trigger] actions[i] == DriverAction::Attempt(states[j].attempt->0)
                && states[j].attempt->0.phase == observation.phase
                && states[j].attempt->0.answer == answer,
{
    lemma_driver_keeps_its_run(states, events, actions, j);
    assert(driven(states[j], events[j], states[j + 1], actions[j]));
}

proof fn lemma_driver_keeps_its_run(
    states: Seq<DriverView>,
    events: Seq<DriverEvent>,
    actions: Seq<DriverAction>,
    j: int,
)
    requires
        history(states, events, actions),
        states[0].attempt is None,
        0 <= j <= events.len(),
    ensures
        states[j].run_id == states[0].run_id,
        states[j].pid == states[0].pid,
        states[j].has_liveness == states[0].has_liveness,
        states[j].attempt matches Some(attempt) ==> exists|i: int|
            0 <= i < j && #[trigger] actions[i] == DriverAction::Attempt(attempt),
    decreases j,
{
    if j > 0 {
        lemma_driver_keeps_its_run(states, events, actions, j - 1);
        assert(driven(states[j - 1], events[j - 1], states[j], actions[j - 1]));
        if let Some(attempt) = states[j].attempt {
            if states[j - 1].attempt == Some(attempt) {
                let i = choose|i: int|
                    0 <= i < j - 1 && #[trigger] actions[i] == DriverAction::Attempt(attempt);
                assert(actions[i] == DriverAction::Attempt(attempt));
            } else {
                assert(actions[j - 1] == DriverAction::Attempt(attempt));
            }
        }
    }
}

/// Until it is told to use the probe of liveness a driver probes for readiness, and
/// from then on for liveness, or not at all where there is no such probe. What it is
/// asked for is always tried with the probe of liveness where there is one.
pub proof fn law_phases_follow_the_order(
    states: Seq<DriverView>,
    events: Seq<DriverEvent>,
    actions: Seq<DriverAction>,
    j: int,
)
    requires
        history(states, events, actions),
        states[0].attempt is None,
        states[0].periodic is Readiness,
        0 <= j < events.len(),
    ensures
        actions[j] matches DriverAction::Attempt(attempt) ==> match attempt.phase {
            ProbePhase::Readiness => !told_to_use_liveness(events, actions, j) && !attempt.answer
                && !attempt.with_liveness,
            ProbePhase::Liveness => told_to_use_liveness(events, actions, j) && !attempt.answer
                && attempt.with_liveness && states[0].has_liveness,
            ProbePhase::Reconcile => attempt.answer && attempt.with_liveness
                == states[0].has_liveness,
        },
{
    lemma_driver_keeps_its_run(states, events, actions, j);
    lemma_periodic_is_told(states, events, actions, j);
    assert(driven(states[j], events[j], states[j + 1], actions[j]));
}

/// Before event `j` the driver took the order to use the probe of liveness.
pub open spec fn told_to_use_liveness(
    events: Seq<DriverEvent>,
    actions: Seq<DriverAction>,
    j: int,
) -> bool {
    exists|i: int|
        0 <= i < j && (#[trigger] events[i]) is UseLiveness && actions[i] is Wait
}

proof fn lemma_periodic_is_told(
    states: Seq<DriverView>,
    events: Seq<DriverEvent>,
    actions: Seq<DriverAction>,
    j: int,
)
    requires
        history(states, events, actions),
        states[0].attempt is None,
        states[0].periodic is Readiness,
        0 <= j <= events.len(),
    ensures
        states[j].periodic == (if !told_to_use_liveness(events, actions, j) {
            Periodic::Readiness
        } else if states[0].has_liveness {
            Periodic::Liveness
        } else {
            Periodic::Off
        }),
    decreases j,
{
    if j > 0 {
        lemma_periodic_is_told(states, events, actions, j - 1);
        lemma_driver_keeps_its_run(states, events, actions, j - 1);
        assert(driven(states[j - 1], events[j - 1], states[j], actions[j - 1]));
        if told_to_use_liveness(events, actions, j - 1) {
            let i = choose|i: int|
                0 <= i < j - 1 && (#[trigger] events[i]) is UseLiveness && actions[i] is Wait;
            assert(events[i] is UseLiveness);
        }
        if events[j - 1] is UseLiveness && actions[j - 1] is Wait {
            assert(told_to_use_liveness(events, actions, j));
        }
    }
}

/// A driver that has stopped stays stopped, tries nothing and makes nothing known.
pub proof fn law_stopped_driver_is_silent(
    d: DriverView,
    event: DriverEvent,
    after: DriverView,
    action: DriverAction,
)
    requires
        driven(d, event, after, action),
    ensures
        d.done ==> after == d && action is Stop,
        event is Cancelled ==> after.done,
{
}

/// A driver that is due tries the probe that it tries again and again, and
/// nothing where there is none; nobody is answered by that.
pub proof fn law_due_probes_are_tried(
    d: DriverView,
    after: DriverView,
    action: DriverAction,
)
    requires
        !d.done,
        d.attempt is None,
        driven(d, DriverEvent::Due, after, action),
    ensures
        d.periodic is Off ==> action is Wait && after.attempt is None,
        !(d.periodic is Off) ==> (action matches DriverAction::Attempt(attempt) && after.attempt
            == Some(attempt) && !attempt.answer && (attempt.with_liveness
            <==> d.periodic is Liveness) && (d.periodic is Readiness ==> attempt.phase
            is Readiness) && (d.periodic is Liveness ==> attempt.phase is Liveness)),
        after.next_probe == d.next_probe,
        after.periodic == d.periodic,
{
}

/// A request is tried at once, with the probe of liveness where there is one, and
/// answered; the order of the other attempts stays as it was.
pub proof fn law_requests_are_tried(d: DriverView, after: DriverView, action: DriverAction)
    requires
        !d.done,
        d.attempt is None,
        driven(d, DriverEvent::ReconcileAsked, after, action),
    ensures
        action matches DriverAction::Attempt(attempt) && after.attempt == Some(attempt)
            && attempt.answer && attempt.phase is Reconcile && attempt.with_liveness
            == d.has_liveness,
        after.next_probe == d.next_probe,
        after.periodic == d.periodic,
{
}

/// What an attempt found is made known as it was found, with the time at which it
/// was found, and to who asked for it. One that took too long found the core
/// unhealthy; one that was cancelled found nothing.
pub proof fn law_findings_are_made_known(
    d: DriverView,
    attempt: Attempt,
    end: AttemptEnd,
    now: Duration,
    now_ms: i64,
    after: DriverView,
    action: DriverAction,
)
    requires
        !d.done,
        d.attempt == Some(attempt),
        driven(d, DriverEvent::Ended { end, now, now_ms }, after, action),
    ensures
        end matches AttemptEnd::Answered(result) ==> (
        action matches DriverAction::Observe { observation, answer } && observation.result
            == result),
        end is TimedOut ==> (action matches DriverAction::Observe { observation, answer }
            && observation.result is Unhealthy),
        end is Cancelled ==> action is Wait,
        action matches DriverAction::Observe { observation, answer } ==> observation.completed_at
            == now && observation.completed_at_ms == now_ms && observation.phase == attempt.phase
            && observation.run_id == d.run_id && observation.pid == d.pid && answer
            == attempt.answer,
        after.attempt is None,
        !after.done,
{
}

/// A periodic attempt is followed by the next one an interval later. One that was
/// asked for, and everything that waits for an attempt to end, puts off nothing.
pub proof fn law_attempts_keep_their_distance(
    d: DriverView,
    event: DriverEvent,
    after: DriverView,
    action: DriverAction,
)
    requires
        !d.done,
        driven(d, event, after, action),
    ensures
        d.attempt matches Some(attempt) ==> (event matches DriverEvent::Ended { end, now, now_ms }
            ==> after.next_probe == (if attempt.answer {
            d.next_probe
        } else {
            now@ + d.interval
        })),
        d.attempt is None ==> (event matches DriverEvent::UseLiveness { now } ==> after.next_probe
            == now@ + d.interval),
        d.attempt is Some && !(event is Ended) && !(event is Cancelled) ==> after == d && action
            is Later,
        after.interval == d.interval,
        after.timeout == d.timeout,
{
}

/// A driver tries for readiness as soon as it starts.
pub proof fn law_drivers_begin_at_once(
    run_id: u64,
    pid: u32,
    has_liveness: bool,
    interval: nat,
    timeout: nat,
    now: nat,
)
    ensures
        ({
            let d = fresh(run_id, pid, has_liveness, interval, timeout, now);
            &&& d.next_probe == now
            &&& d.periodic is Readiness
            &&& d.attempt is None
            &&& !d.done
            &&& d.run_id == run_id
            &&& d.pid == pid
            &&& d.has_liveness == has_liveness
            &&& d.interval == interval
            &&& d.timeout == timeout
        }),
{
}

} // verus!
