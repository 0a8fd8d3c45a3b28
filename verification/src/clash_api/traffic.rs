//! Amounts and rates of traffic. They are signed, as the controller reports them.

use vstd::prelude::*;
use vstd::std_specs::convert::FromSpecImpl;
use vstd::string::*;

use crate::text;
use crate::text::i64_to_string;

verus! {

#[derive(Debug, Clone, Copy, Default, PartialEq, Eq, PartialOrd, Ord, Structural)]
pub struct Bytes(i64);

impl Bytes {
    pub closed spec fn view(&self) -> i64 {
        self.0
    }

    pub closed spec fn of(value: i64) -> Bytes {
        Bytes(value)
    }

    pub fn new(value: i64) -> (r: Bytes)
        ensures
            r@ == value,
            r == Bytes::of(value),
    {
        Bytes(value)
    }

    pub fn get(self) -> (r: i64)
        ensures
            r == self@,
    {
        self.0
    }
}

impl Bytes {
    /// The number as it is printed.
    pub fn text(&self) -> (r: String)
        ensures
            r@ == text::signed(self@ as int),
    {
        i64_to_string(self.0)
    }
}

impl From<i64> for Bytes {
    fn from(value: i64) -> (r: Bytes) {
        Bytes(value)
    }
}

impl From<Bytes> for i64 {
    fn from(value: Bytes) -> (r: i64) {
        value.0
    }
}

impl FromSpecImpl<Bytes> for i64 {
    open spec fn obeys_from_spec() -> bool {
        true
    }

    open spec fn from_spec(value: Bytes) -> i64 {
        value@
    }
}

impl FromSpecImpl<i64> for Bytes {
    open spec fn obeys_from_spec() -> bool {
        true
    }

    open spec fn from_spec(value: i64) -> Bytes {
        Bytes::of(value)
    }
}

#[derive(Debug, Clone, Copy, Default, PartialEq, Eq, PartialOrd, Ord, Structural)]
pub struct BytesPerSecond(i64);

impl BytesPerSecond {
    pub closed spec fn view(&self) -> i64 {
        self.0
    }

    pub closed spec fn of(value: i64) -> BytesPerSecond {
        BytesPerSecond(value)
    }

    pub fn new(value: i64) -> (r: BytesPerSecond)
        ensures
            r@ == value,
            r == BytesPerSecond::of(value),
    {
        BytesPerSecond(value)
    }

    pub fn get(self) -> (r: i64)
        ensures
            r == self@,
    {
        self.0
    }
}

impl BytesPerSecond {
    /// The number as it is printed.
    pub fn text(&self) -> (r: String)
        ensures
            r@ == text::signed(self@ as int),
    {
        i64_to_string(self.0)
    }
}

impl From<i64> for BytesPerSecond {
    fn from(value: i64) -> (r: BytesPerSecond) {
        BytesPerSecond(value)
    }
}

impl From<BytesPerSecond> for i64 {
    fn from(value: BytesPerSecond) -> (r: i64) {
        value.0
    }
}

impl FromSpecImpl<BytesPerSecond> for i64 {
    open spec fn obeys_from_spec() -> bool {
        true
    }

    open spec fn from_spec(value: BytesPerSecond) -> i64 {
        value@
    }
}

impl FromSpecImpl<i64> for BytesPerSecond {
    open spec fn obeys_from_spec() -> bool {
        true
    }

    open spec fn from_spec(value: i64) -> BytesPerSecond {
        BytesPerSecond::of(value)
    }
}

/// A number that is wrapped comes out unchanged.
pub proof fn law_amounts_keep_their_number(value: i64)
    ensures
        Bytes::of(value)@ == value,
        BytesPerSecond::of(value)@ == value,
{
}

#[derive(Debug, Clone, Copy, Default, PartialEq, Eq)]
pub struct Traffic {
    pub up: BytesPerSecond,
    pub down: BytesPerSecond,
    pub up_total: Bytes,
    pub down_total: Bytes,
}

} // verus!
