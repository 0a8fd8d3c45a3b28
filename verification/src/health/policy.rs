//! How often a core is probed and how many answers count.

use vstd::prelude::*;
use vstd::string::*;

use crate::error::Error;
use crate::time::Duration;

verus! {

/// A number of answers; at least one.
#[derive(Debug, Clone, Copy, PartialEq, Eq, Structural)]
pub struct Threshold {
    count: u32,
}

impl Threshold {
    #[verifier::type_invariant]
    spec fn positive(self) -> bool {
        self.count > 0
    }

    pub closed spec fn view(&self) -> u32 {
        self.count
    }

    pub fn new(count: u32) -> (r: Option<Threshold>)
        ensures
            match r {
                Some(t) => count > 0 && t@ == count,
                None => count == 0,
            },
    {
        if count == 0 {
            None
        } else {
            Some(Threshold { count })
        }
    }

    pub fn one() -> (r: Threshold)
        ensures
            r@ == 1,
    {
        Threshold { count: 1 }
    }

    pub fn get(&self) -> (r: u32)
        ensures
            r == self@,
            r > 0,
    {
        proof {
            use_type_invariant(self);
        }
        self.count
    }
}

#[derive(Debug, Clone, Copy, PartialEq, Eq, Structural)]
pub struct HealthPolicy {
    interval: Duration,
    timeout: Duration,
    failure_threshold: Threshold,
    success_threshold: Threshold,
    start_period: Duration,
}

pub ghost struct PolicyView {
    pub interval: nat,
    pub timeout: nat,
    pub failures: u32,
    pub successes: u32,
    pub start_period: nat,
}

impl HealthPolicy {
    #[verifier::type_invariant]
    spec fn wf(self) -> bool {
        self.interval@ > 0 && self.timeout@ > 0
    }

    pub closed spec fn view(&self) -> PolicyView {
        PolicyView {
            interval: self.interval@,
            timeout: self.timeout@,
            failures: self.failure_threshold@,
            successes: self.success_threshold@,
            start_period: self.start_period@,
        }
    }

    pub open spec fn is_default(&self) -> bool {
        self@ == (PolicyView {
            interval: 250_000_000,
            timeout: 1_000_000_000,
            failures: 3,
            successes: 1,
            start_period: 0,
        })
    }

    /// Neither the interval nor the timeout may be zero.
    pub fn new(
        interval: Duration,
        timeout: Duration,
        failure_threshold: Threshold,
        success_threshold: Threshold,
        start_period: Duration,
    ) -> (r: Result<HealthPolicy, Error>)
        ensures
            match r {
                Ok(policy) => interval@ > 0 && timeout@ > 0 && policy@ == (PolicyView {
                    interval: interval@,
                    timeout: timeout@,
                    failures: failure_threshold@,
                    successes: success_threshold@,
                    start_period: start_period@,
                }),
                Err(Error::InvalidHealthPolicy(m)) => if interval@ == 0 {
                    m@ == "interval must be greater than zero"@
                } else {
                    timeout@ == 0 && m@ == "timeout must be greater than zero"@
                },
                Err(_) => false,
            },
    {
        if interval.is_zero() {
            return Err(Error::InvalidHealthPolicy("interval must be greater than zero".to_owned()));
        }
        if timeout.is_zero() {
            return Err(Error::InvalidHealthPolicy("timeout must be greater than zero".to_owned()));
        }
        Ok(
            HealthPolicy {
                interval,
                timeout,
                failure_threshold,
                success_threshold,
                start_period,
            },
        )
    }

    pub fn interval(&self) -> (r: Duration)
        ensures
            r@ == self@.interval,
            r@ > 0,
    {
        proof {
            use_type_invariant(self);
        }
        self.interval
    }

    pub fn timeout(&self) -> (r: Duration)
        ensures
            r@ == self@.timeout,
            r@ > 0,
    {
        proof {
            use_type_invariant(self);
        }
        self.timeout
    }

    pub fn failure_threshold(&self) -> (r: Threshold)
        ensures
            r@ == self@.failures,
    {
        self.failure_threshold
    }

    pub fn success_threshold(&self) -> (r: Threshold)
        ensures
            r@ == self@.successes,
    {
        self.success_threshold
    }

    pub fn start_period(&self) -> (r: Duration)
        ensures
            r@ == self@.start_period,
    {
        self.start_period
    }

    /// Whether two policies say the same.
    pub fn same(&self, other: &HealthPolicy) -> (r: bool)
        ensures
            r == (self@ == other@),
    {
        self.interval.as_nanos() == other.interval.as_nanos() && self.timeout.as_nanos()
            == other.timeout.as_nanos() && self.failure_threshold.get()
            == other.failure_threshold.get() && self.success_threshold.get()
            == other.success_threshold.get() && self.start_period.as_nanos()
            == other.start_period.as_nanos()
    }
}

impl Default for HealthPolicy {
    fn default() -> (r: HealthPolicy)
        ensures
            r.is_default(),
    {
        let three = Threshold { count: 3 };
        HealthPolicy {
            interval: Duration::from_millis(250),
            timeout: Duration::from_secs(1),
            failure_threshold: three,
            success_threshold: Threshold::one(),
            start_period: Duration::zero(),
        }
    }
}

} // verus!
