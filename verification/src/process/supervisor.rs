//! When and how often a failed child is restarted.

use vstd::prelude::*;
use vstd::string::*;

use crate::process::error::ProcessError;
use crate::process::event::TerminatedPayload;
use crate::time;
use crate::time::Duration;

verus! {

/// Controls whether and how often failed children are restarted.
#[derive(Debug, Clone, Copy, PartialEq, Eq, Structural)]
pub enum RestartPolicy {
    Never,
    OnFailure { max_restarts: u32 },
}

/// Bounds abnormal child exits even when readiness repeatedly resets the
/// consecutive restart attempt count.
#[derive(Debug, Clone, Copy, PartialEq, Eq, Structural)]
pub struct RestartStormPolicy {
    max_failures: u32,
    window: Duration,
}

impl RestartStormPolicy {
    pub closed spec fn failures(&self) -> u32 {
        self.max_failures
    }

    pub closed spec fn span(&self) -> Duration {
        self.window
    }

    /// At least one failure in at least one millisecond.
    pub fn new(max_failures: u32, window: Duration) -> (r: RestartStormPolicy)
        ensures
            r.failures() == (if max_failures == 0 {
                1
            } else {
                max_failures
            }),
            r.span()@ == (if window@ < 1_000_000 {
                1_000_000
            } else {
                window@
            }),
    {
        RestartStormPolicy {
            max_failures: if max_failures == 0 {
                1
            } else {
                max_failures
            },
            window: window.longer(Duration::from_millis(1)),
        }
    }

    pub fn max_failures(&self) -> (r: u32)
        ensures
            r == self.failures(),
    {
        self.max_failures
    }

    pub fn window(&self) -> (r: Duration)
        ensures
            r == self.span(),
    {
        self.window
    }
}

impl Default for RestartStormPolicy {
    fn default() -> (r: RestartStormPolicy)
        ensures
            r.failures() == 5,
            r.span()@ == 300_000_000_000,
    {
        RestartStormPolicy::new(5, Duration::from_secs(300))
    }
}

/// Delays between restarts that double up to a limit.
#[derive(Debug, Clone, Copy, PartialEq, Eq, Structural)]
pub struct Backoff {
    initial: Duration,
    max: Duration,
    jitter: bool,
}

pub open spec fn pow2(n: int) -> int
    decreases n,
{
    if n <= 0 {
        1
    } else {
        2 * pow2(n - 1)
    }
}

fn two_to(n: u32) -> (r: u32)
    requires
        n <= 30,
    ensures
        r == pow2(n as int),
        r <= 1_073_741_824,
{
    let mut out: u32 = 1;
    let mut i: u32 = 0;
    assert(pow2(30) == 1_073_741_824) by {
        reveal_with_fuel(pow2, 31);
    }
    while i < n
        invariant
            i <= n <= 30,
            out == pow2(i as int),
            out * pow2(30 - i) == pow2(30),
            pow2(30 - i) >= 1,
            pow2(30) == 1_073_741_824,
        decreases n - i,
    {
        proof {
            lemma_pow2_pos(30 - i - 1);
            assert(pow2(30 - i) == 2 * pow2(30 - i - 1));
            assert(out * pow2(30 - i) == (out * 2) * pow2(30 - i - 1)) by (nonlinear_arith)
                requires
                    pow2(30 - i) == 2 * pow2(30 - i - 1),
            ;
            assert(out * 2 <= 1_073_741_824) by (nonlinear_arith)
                requires
                    (out * 2) * pow2(30 - i - 1) == 1_073_741_824,
                    pow2(30 - i - 1) >= 1,
            ;
        }
        out = out * 2;
        i += 1;
    }
    proof {
        assert(out <= 1_073_741_824) by (nonlinear_arith)
            requires
                out * pow2(30 - i) == 1_073_741_824,
                pow2(30 - i) >= 1,
        ;
    }
    out
}

proof fn lemma_pow2_pos(n: int)
    ensures
        pow2(n) >= 1,
    decreases n,
{
    if n > 0 {
        lemma_pow2_pos(n - 1);
    }
}

proof fn lemma_pow2_monotonic(a: int, b: int)
    requires
        a <= b,
    ensures
        pow2(a) <= pow2(b),
    decreases b - a,
{
    if a < b {
        lemma_pow2_monotonic(a, b - 1);
        lemma_pow2_pos(b - 1);
    }
}

/// The delay before any spread, in nanoseconds.
pub open spec fn base_delay(initial: nat, max: nat, attempt: u32) -> nat {
    let exponent = if attempt < 30 {
        attempt as int
    } else {
        30
    };
    let grown = initial * pow2(exponent);
    let capped = if grown <= time::MAX_NANOS {
        grown
    } else {
        time::MAX_NANOS as int
    };
    if capped <= max {
        capped as nat
    } else {
        max
    }
}

/// The low 64 bits of a delay that is not zero.
pub open spec fn spread_base(base: nat) -> int {
    (if base == 0 {
        1int
    } else {
        base as int
    }) % 0x1_0000_0000_0000_0000
}

/// A delay between three and five quarters of `base`, chosen by `entropy`.
pub open spec fn spread(base: nat, entropy: u64) -> int {
    let ns = spread_base(base);
    let span = ns / 2;
    ns - span / 2 + entropy as int % (if span == 0 {
        1
    } else {
        span
    })
}

impl Backoff {
    pub closed spec fn first(&self) -> Duration {
        self.initial
    }

    pub closed spec fn limit(&self) -> Duration {
        self.max
    }

    pub closed spec fn jittered(&self) -> bool {
        self.jitter
    }

    pub fn exponential(initial: Duration, max: Duration) -> (r: Backoff)
        ensures
            r.first() == initial,
            r.limit() == max,
            !r.jittered(),
    {
        Backoff { initial, max, jitter: false }
    }

    pub fn with_jitter(self) -> (r: Backoff)
        ensures
            r.first() == self.first(),
            r.limit() == self.limit(),
            r.jittered(),
    {
        let mut out = self;
        out.jitter = true;
        out
    }

    /// The delay before restart number `attempt`. `entropy` picks the place in
    /// the spread where there is one; the spread delay must fit in 64 bits of
    /// nanoseconds.
    pub fn delay_for(&self, attempt: u32, entropy: u64) -> (r: Duration)
        requires
            self.jittered() ==> spread(
                base_delay(self.first()@, self.limit()@, attempt),
                entropy,
            ) <= u64::MAX,
        ensures
            r@ == (if self.jittered() {
                spread(base_delay(self.first()@, self.limit()@, attempt), entropy)
            } else {
                base_delay(self.first()@, self.limit()@, attempt) as int
            }),
    {
        let exponent: u32 = if attempt < 30 {
            attempt
        } else {
            30
        };
        let base = self.initial.saturating_mul(two_to(exponent)).shorter(self.max);
        if !self.jitter {
            return base;
        }
        let nanos: u128 = base.as_nanos();
        let positive: u128 = if nanos == 0 {
            1
        } else {
            nanos
        };
        let base_ns: u64 = (positive % 0x1_0000_0000_0000_0000) as u64;
        let span: u64 = base_ns / 2;
        let divisor: u64 = if span == 0 {
            1
        } else {
            span
        };
        let offset: u64 = entropy % divisor;
        Duration::from_nanos(base_ns - span / 2 + offset)
    }
}

/// Without a spread no delay exceeds the limit, and later attempts wait no
/// shorter.
pub proof fn law_delays_grow_to_the_limit(initial: nat, max: nat, a: u32, b: u32)
    requires
        a <= b,
    ensures
        base_delay(initial, max, b) <= max,
        base_delay(initial, max, a) <= base_delay(initial, max, b),
{
    let ea = if a < 30 {
        a as int
    } else {
        30
    };
    let eb = if b < 30 {
        b as int
    } else {
        30
    };
    lemma_pow2_monotonic(ea, eb);
    lemma_pow2_pos(ea);
    assert(0 <= initial * pow2(ea) <= initial * pow2(eb)) by (nonlinear_arith)
        requires
            0 <= pow2(ea) <= pow2(eb),
            initial >= 0,
    ;
}

/// A spread delay stays between three and five quarters of its base.
pub proof fn law_spread_stays_near_the_base(base: nat, entropy: u64)
    requires
        0 < base < 0x1_0000_0000_0000_0000,
    ensures
        3 * base <= 4 * spread(base, entropy),
        4 * spread(base, entropy) <= 5 * base,
{
    let ns = base as int;
    assert(spread_base(base) == ns);
    let span = ns / 2;
    let divisor = if span == 0 {
        1
    } else {
        span
    };
    let offset = entropy as int % divisor;
    assert(0 <= offset < divisor) by (nonlinear_arith)
        requires
            divisor > 0,
            offset == entropy as int % divisor,
    ;
}

/// The mixed value of a clock reading and a counter.
pub open spec fn mixed(nanos: u64, counter: u64) -> u64 {
    let seed = vstd::wrapping::u64_specs::wrapping_add(
        vstd::wrapping::u64_specs::wrapping_add(
            nanos,
            vstd::wrapping::u64_specs::wrapping_mul(counter, 0x9E37_79B9_7F4A_7C15u64),
        ),
        0x9E37_79B9_7F4A_7C15u64,
    );
    let a = vstd::wrapping::u64_specs::wrapping_mul(
        seed ^ (seed >> 30u64),
        0xBF58_476D_1CE4_E5B9u64,
    );
    let b = vstd::wrapping::u64_specs::wrapping_mul(a ^ (a >> 27u64), 0x94D0_49BB_1331_11EBu64);
    b ^ (b >> 31u64)
}

/// Mixes a clock reading, in nanoseconds, and a counter into an unpredictable
/// number.
pub fn time_entropy(nanos: u64, counter: u64) -> (r: u64)
    ensures
        r == mixed(nanos, counter),
{
    let mut value: u64 = nanos.wrapping_add(counter.wrapping_mul(0x9E37_79B9_7F4A_7C15))
        .wrapping_add(0x9E37_79B9_7F4A_7C15);
    value = (value ^ (value >> 30u64)).wrapping_mul(0xBF58_476D_1CE4_E5B9);
    value = (value ^ (value >> 27u64)).wrapping_mul(0x94D0_49BB_1331_11EB);
    value ^ (value >> 31u64)
}

#[derive(Debug, Clone, Copy, PartialEq, Eq, Structural)]
pub enum ReadinessProbe {
    AliveAfter(Duration),
    Acknowledged,
}

#[derive(Debug, Clone, Copy, PartialEq, Eq, Structural)]
pub enum SupervisorEvent {
    Started { pid: u32 },
    Ready,
    Exited(TerminatedPayload),
    Restarting { attempt: u32, delay: Duration },
    GaveUp,
    Stopped,
}

/// The settings of a supervisor before anything runs.
#[derive(Debug, Clone, Copy, PartialEq, Eq, Structural)]
pub struct SupervisorSettings {
    pub policy: RestartPolicy,
    pub backoff: Backoff,
    pub readiness: ReadinessProbe,
    pub storm_policy: RestartStormPolicy,
}

impl Default for SupervisorSettings {
    fn default() -> (r: SupervisorSettings)
        ensures
            r.policy == (RestartPolicy::OnFailure { max_restarts: 5 }),
            r.backoff.first()@ == 1_000_000_000,
            r.backoff.limit()@ == 30_000_000_000,
            r.backoff.jittered(),
            r.readiness matches ReadinessProbe::AliveAfter(d) && d@ == 1_500_000_000,
            r.storm_policy.failures() == 5,
            r.storm_policy.span()@ == 300_000_000_000,
    {
        SupervisorSettings {
            policy: RestartPolicy::OnFailure { max_restarts: 5 },
            backoff: Backoff::exponential(
                Duration::from_secs(1),
                Duration::from_secs(30),
            ).with_jitter(),
            readiness: ReadinessProbe::AliveAfter(Duration::from_millis(1500)),
            storm_policy: RestartStormPolicy::default(),
        }
    }
}

/// The pid whose readiness is still to be acknowledged; zero where there is none.
#[derive(Debug, Clone, Copy, PartialEq, Eq, Structural)]
pub struct ReadyLatch {
    pub pending: u32,
}

impl ReadyLatch {
    /// Claims the acknowledgement of `pid`. It succeeds for the child that runs
    /// and whose readiness is pending, and once.
    pub fn claim(&mut self, current: Option<u32>, pid: u32) -> (r: bool)
        ensures
            r == (current == Some(pid) && old(self).pending == pid),
            final(self).pending == (if r {
                0
            } else {
                old(self).pending
            }),
    {
        let is_current = match current {
            Some(running) => running == pid,
            None => false,
        };
        if is_current && self.pending == pid {
            self.pending = 0;
            true
        } else {
            false
        }
    }

    /// Ends a claim: one that could not be delivered is pending again.
    pub fn settle(&mut self, pid: u32, delivered: bool) -> (r: bool)
        ensures
            r == delivered,
            final(self).pending == (if delivered {
                old(self).pending
            } else {
                pid
            }),
    {
        if !delivered {
            self.pending = pid;
        }
        delivered
    }
}

/// The state of the latch after an acknowledgement of `pid`, and whether it was
/// given.
pub open spec fn acknowledged(
    latch: ReadyLatch,
    current: Option<u32>,
    pid: u32,
    delivered: bool,
) -> (ReadyLatch, bool) {
    if current == Some(pid) && latch.pending == pid && delivered {
        (ReadyLatch { pending: 0 }, true)
    } else {
        (latch, false)
    }
}

/// Acknowledges the readiness of `pid`. `current` is the child that runs, where
/// one does; `delivered` is whether the supervisor takes the message.
pub fn acknowledge_ready(
    latch: &mut ReadyLatch,
    current: Option<u32>,
    pid: u32,
    delivered: bool,
) -> (r: bool)
    ensures
        (*final(latch), r) == acknowledged(*old(latch), current, pid, delivered),
{
    if !latch.claim(current, pid) {
        return false;
    }
    latch.settle(pid, delivered)
}

/// A readiness that was acknowledged is not acknowledged again.
pub proof fn law_ready_once(
    latch: ReadyLatch,
    current: Option<u32>,
    pid: u32,
    again: Option<u32>,
    delivered: bool,
)
    requires
        pid != 0,
        acknowledged(latch, current, pid, true).1,
    ensures
        !acknowledged(acknowledged(latch, current, pid, true).0, again, pid, delivered).1,
{
}

/// How a stopped process counts: a graceful end does, and so does a kill of a
/// process that had already exited.
pub fn stop_result(graceful: bool, kill: Result<(), ProcessError>) -> (r: Result<(), ProcessError>)
    ensures
        r == (if graceful || kill is Ok || kill == Err::<(), ProcessError>(
            ProcessError::AlreadyExited,
        ) {
            Ok::<(), ProcessError>(())
        } else {
            kill
        }),
{
    if graceful {
        return Ok(());
    }
    match kill {
        Ok(()) => Ok(()),
        Err(ProcessError::AlreadyExited) => Ok(()),
        Err(e) => Err(e),
    }
}

/// What the end of a supervisor counts as: the failure of its task comes before
/// that of the process.
pub fn supervisor_result(
    task_failure: Option<String>,
    stop: Result<(), ProcessError>,
) -> (r: Result<(), ProcessError>)
    ensures
        match task_failure {
            Some(message) => r matches Err(ProcessError::Engine(m)) && m@
                == "supervisor task failed: "@ + message@,
            None => r == stop,
        },
{
    match task_failure {
        Some(message) => {
            let mut out = "supervisor task failed: ".to_owned();
            out.append(message.as_str());
            Err(ProcessError::Engine(out))
        },
        None => stop,
    }
}

/// The first delay is the initial one, and each further one is twice the one
/// before, as far as the limit lets it.
pub proof fn law_delays_double(initial: nat, max: nat, attempt: u32)
    requires
        max <= time::MAX_NANOS,
        attempt < 30,
    ensures
        base_delay(initial, max, 0) == (if initial <= max {
            initial
        } else {
            max
        }),
        base_delay(initial, max, (attempt + 1) as u32) == (if 2 * base_delay(
            initial,
            max,
            attempt,
        ) <= max {
            2 * base_delay(initial, max, attempt)
        } else {
            max
        }),
{
    let p = pow2(attempt as int);
    assert(pow2(attempt as int + 1) == 2 * p);
    assert(initial * (2 * p) == 2 * (initial * p)) by (nonlinear_arith);
    lemma_pow2_pos(attempt as int);
    assert(initial * p >= 0) by (nonlinear_arith)
        requires
            p > 0,
    ;
    assert(pow2(0) == 1);
}

/// Readiness is acknowledged for the child that runs and whose readiness is
/// pending, where the supervisor takes the message; in every other case the
/// readiness that was pending still is.
pub proof fn law_readiness_is_of_the_running_child(
    latch: ReadyLatch,
    current: Option<u32>,
    pid: u32,
    delivered: bool,
)
    ensures
        ({
            let (post, given) = acknowledged(latch, current, pid, delivered);
            &&& given <==> delivered && current == Some(pid) && latch.pending == pid
            &&& given ==> post.pending == 0
            &&& !given ==> post.pending == latch.pending
        }),
{
}

} // verus!
