//! Instants on the UTC time line.

use vstd::prelude::*;

verus! {

/// The least value that the nanosecond part of a [`Timestamp`] cannot take.
pub const NANOS_LIMIT: u32 = 2_000_000_000;

/// A UTC instant, held as whole seconds since 1970-01-01T00:00:00Z and the
/// nanoseconds within that second.
///
/// The nanosecond part is below [`NANOS_LIMIT`]. A part of 1_000_000_000 or
/// more stands for an instant inside a leap second: it comes after every
/// ordinary instant of the second it extends and before the next second.
/// Instants are therefore ordered by their seconds first and by their
/// nanoseconds second.
#[derive(Clone, Copy, Debug, PartialEq, Eq, Structural)]
pub struct Timestamp {
    secs: i64,
    nanos: u32,
}

impl View for Timestamp {
    type V = (int, int);

    /// The seconds and the nanoseconds of the instant.
    closed spec fn view(&self) -> (int, int) {
        (self.secs as int, self.nanos as int)
    }
}

impl Timestamp {
    #[verifier::type_invariant]
    spec fn in_range(self) -> bool {
        self.nanos < NANOS_LIMIT
    }

    /// Whether `self` comes strictly after `other`.
    pub open spec fn later_than(self, other: Timestamp) -> bool {
        self@.0 > other@.0 || (self@.0 == other@.0 && self@.1 > other@.1)
    }

    /// The instant `secs` seconds and `nanos` nanoseconds after the epoch, or
    /// `None` where `nanos` is out of range.
    pub fn new(secs: i64, nanos: u32) -> (r: Option<Timestamp>)
        ensures
            nanos < NANOS_LIMIT ==> r.is_some() && r.unwrap()@ == (secs as int, nanos as int),
            nanos >= NANOS_LIMIT ==> r.is_none(),
    {
        if nanos < NANOS_LIMIT {
            Some(Timestamp { secs, nanos })
        } else {
            None
        }
    }

    /// The instant a whole number of seconds after the epoch.
    pub fn from_secs(secs: i64) -> (t: Timestamp)
        ensures
            t@ == (secs as int, 0int),
    {
        Timestamp { secs, nanos: 0 }
    }

    /// The whole seconds since the epoch.
    pub fn secs(&self) -> (s: i64)
        ensures
            s == self@.0,
    {
        self.secs
    }

    /// The nanoseconds within the second.
    pub fn nanos(&self) -> (n: u32)
        ensures
            n == self@.1,
            n < NANOS_LIMIT,
    {
        proof {
            use_type_invariant(self);
        }
        self.nanos
    }

    /// Whether `self` comes strictly after `other`.
    pub fn is_after(&self, other: &Timestamp) -> (r: bool)
        ensures
            r == self.later_than(*other),
    {
        self.secs > other.secs || (self.secs == other.secs && self.nanos > other.nanos)
    }
}

} // verus!
