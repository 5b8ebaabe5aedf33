//! Points in time, at the precision the pipeline compares them.

use vstd::prelude::*;

verus! {

/// A UTC point in time: whole seconds since the Unix epoch and the
/// nanoseconds into that second.
#[derive(Clone, Copy, Debug, PartialEq, Eq, Structural)]
pub struct Instant {
    pub secs: i64,
    pub nanos: u32,
}

impl Instant {
    /// Whether `self` is strictly earlier than `other`.
    pub open spec fn lt(self, other: Instant) -> bool {
        self.secs < other.secs || (self.secs == other.secs && self.nanos < other.nanos)
    }

    /// Whether `self` is no later than `other`.
    pub open spec fn le(self, other: Instant) -> bool {
        self.lt(other) || self == other
    }

    /// One integer that orders instants as `lt` does: the seconds, shifted
    /// to leave room for the nanoseconds.
    pub open spec fn key(self) -> int {
        self.secs * 0x1_0000_0000 + self.nanos
    }

    /// `key` orders instants as `lt` and `le` do, and tells them apart.
    pub proof fn lemma_key_orders(self, other: Instant)
        ensures
            self.key() < other.key() <==> self.lt(other),
            self.key() <= other.key() <==> self.le(other),
            self.key() == other.key() <==> self == other,
    {
    }

    /// Computes `key`.
    pub fn sort_key(&self) -> (k: i128)
        ensures
            k == self.key(),
    {
        (self.secs as i128) * 0x1_0000_0000 + (self.nanos as i128)
    }

    /// Decides `le`.
    pub fn is_le(&self, other: &Instant) -> (r: bool)
        ensures
            r == self.le(*other),
    {
        self.secs < other.secs || (self.secs == other.secs && self.nanos <= other.nanos)
    }
}

} // verus!
