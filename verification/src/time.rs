//! Spans of time in whole nanoseconds.

use vstd::prelude::*;

verus! {

/// Nanoseconds in a second.
pub const NANOS_PER_SEC: u128 = 1_000_000_000;

/// The longest span, in nanoseconds: one nanosecond short of 2^64 seconds.
pub const MAX_NANOS: u128 = 18_446_744_073_709_551_615_999_999_999;

/// A span of time.
#[derive(Debug, Clone, Copy, PartialEq, Eq, PartialOrd, Ord, Hash, Structural)]
pub struct Duration {
    nanos: u128,
}

impl Duration {
    #[verifier::type_invariant]
    spec fn in_range(self) -> bool {
        self.nanos <= MAX_NANOS
    }

    /// The length of the span in nanoseconds.
    pub closed spec fn view(&self) -> nat {
        self.nanos as nat
    }

    /// Spans of equal length are equal.
    pub broadcast proof fn lemma_equal(a: Duration, b: Duration)
        requires
            #[trigger] a@ == #[trigger] b@,
        ensures
            a == b,
    {
    }

    pub fn zero() -> (r: Duration)
        ensures
            r@ == 0,
    {
        Duration { nanos: 0 }
    }

    pub fn from_secs(secs: u64) -> (r: Duration)
        ensures
            r@ == secs * 1_000_000_000,
    {
        Duration { nanos: secs as u128 * 1_000_000_000 }
    }

    pub fn from_millis(millis: u64) -> (r: Duration)
        ensures
            r@ == millis * 1_000_000,
    {
        Duration { nanos: millis as u128 * 1_000_000 }
    }

    pub fn from_nanos(nanos: u64) -> (r: Duration)
        ensures
            r@ == nanos,
    {
        Duration { nanos: nanos as u128 }
    }

    pub fn as_nanos(&self) -> (r: u128)
        ensures
            r == self@,
            r <= MAX_NANOS,
    {
        proof {
            use_type_invariant(self);
        }
        self.nanos
    }

    /// Whole seconds.
    pub fn as_secs(&self) -> (r: u64)
        ensures
            r == self@ / 1_000_000_000,
    {
        proof {
            use_type_invariant(self);
        }
        (self.nanos / 1_000_000_000) as u64
    }

    /// Nanoseconds beyond the whole seconds.
    pub fn subsec_nanos(&self) -> (r: u32)
        ensures
            r == self@ % 1_000_000_000,
    {
        (self.nanos % 1_000_000_000) as u32
    }

    pub fn is_zero(&self) -> (r: bool)
        ensures
            r == (self@ == 0),
    {
        self.nanos == 0
    }

    pub fn less(&self, other: &Duration) -> (r: bool)
        ensures
            r == (self@ < other@),
    {
        self.nanos < other.nanos
    }

    /// The shorter span.
    pub fn shorter(self, other: Duration) -> (r: Duration)
        ensures
            r@ == (if self@ <= other@ {
                self@
            } else {
                other@
            }),
    {
        if self.nanos <= other.nanos {
            self
        } else {
            other
        }
    }

    /// The longer span.
    pub fn longer(self, other: Duration) -> (r: Duration)
        ensures
            r@ == (if self@ >= other@ {
                self@
            } else {
                other@
            }),
    {
        if self.nanos >= other.nanos {
            self
        } else {
            other
        }
    }

    /// The span `factor` times, or the longest span where that is too long.
    pub fn saturating_mul(self, factor: u32) -> (r: Duration)
        ensures
            r@ == (if self@ * factor <= MAX_NANOS {
                (self@ * factor) as nat
            } else {
                MAX_NANOS as nat
            }),
    {
        proof {
            use_type_invariant(&self);
        }
        assert(self.nanos * factor <= MAX_NANOS * u32::MAX) by (nonlinear_arith)
            requires
                self.nanos <= MAX_NANOS,
        ;
        let product: u128 = self.nanos * factor as u128;
        if product <= MAX_NANOS {
            Duration { nanos: product }
        } else {
            Duration { nanos: MAX_NANOS }
        }
    }
}

impl Default for Duration {
    fn default() -> (r: Duration)
        ensures
            r@ == 0,
    {
        Duration::zero()
    }
}

/// How the standard library prints a span for debugging.
pub uninterp spec fn span_text(nanos: nat) -> Seq<char>;

/// `{:?}` of `std::time::Duration`: the span in the unit that suits it, such as
/// `1.5s`. It is a function of the length alone.
#[verifier::external_body]
fn debug_text(secs: u64, nanos: u32) -> (r: String)
    requires
        nanos < 1_000_000_000,
    ensures
        r@ == span_text((secs * 1_000_000_000 + nanos) as nat),
{
    format!("{:?}", std::time::Duration::new(secs, nanos))
}

impl Duration {
    pub fn text(&self) -> (r: String)
        ensures
            r@ == span_text(self@),
    {
        debug_text(self.as_secs(), self.subsec_nanos())
    }
}

} // verus!
