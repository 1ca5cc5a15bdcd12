//! Instants on the UTC time line, counted in nanoseconds.
//!
//! All three stores compare instants and add whole seconds to them. The
//! arithmetic here is total: nothing overflows and nothing panics.

use vstd::prelude::*;

verus! {

/// Nanoseconds in one second.
pub const NANOS_PER_SEC: i128 = 1_000_000_000;

/// An instant, as nanoseconds since 1970-01-01T00:00:00Z.
///
/// The view of a timestamp is that count as a mathematical integer.
#[derive(Clone, Copy, Debug, PartialEq, Eq, Structural)]
pub struct Timestamp {
    pub nanos: i128,
}

impl View for Timestamp {
    type V = int;

    open spec fn view(&self) -> int {
        self.nanos as int
    }
}

/// The instant `secs` whole seconds after `t`, capped at the last
/// representable instant.
pub open spec fn plus_secs(t: int, secs: int) -> int {
    if t + secs * NANOS_PER_SEC <= i128::MAX {
        t + secs * NANOS_PER_SEC
    } else {
        i128::MAX as int
    }
}

/// Whether more than `secs` seconds lie between `since` and the later
/// instant `now`.
pub open spec fn elapsed_exceeds(now: int, since: int, secs: int) -> bool {
    now - since > secs * NANOS_PER_SEC
}

impl Timestamp {
    /// Whether the instant can be written as a signed 64-bit count of
    /// seconds plus a 32-bit count of nanoseconds.
    pub open spec fn in_unix_range(self) -> bool {
        i64::MIN * NANOS_PER_SEC <= self@ <= i64::MAX * NANOS_PER_SEC + u32::MAX
    }

    /// The instant `secs` seconds and `subsec_nanos` nanoseconds after the
    /// epoch.
    pub fn from_unix(secs: i64, subsec_nanos: u32) -> (t: Timestamp)
        ensures
            t@ == secs * NANOS_PER_SEC + subsec_nanos,
            t.in_unix_range(),
    {
        let whole: i128 = (secs as i128) * NANOS_PER_SEC;
        Timestamp { nanos: whole + (subsec_nanos as i128) }
    }

    /// The instant `secs` whole seconds after the epoch.
    pub fn from_secs(secs: i64) -> (t: Timestamp)
        ensures
            t@ == secs * NANOS_PER_SEC,
            t.in_unix_range(),
    {
        Timestamp::from_unix(secs, 0)
    }

    /// The current instant on the system clock.
    pub fn now() -> (t: Timestamp)
        ensures
            t.in_unix_range(),
    {
        let parts = read_system_clock();
        Timestamp::from_unix(parts.0, parts.1)
    }

    /// Adds whole seconds, stopping at the last representable instant.
    pub fn plus_secs(self, secs: u64) -> (t: Timestamp)
        ensures
            t@ == plus_secs(self@, secs as int),
            self.in_unix_range() ==> t@ == self@ + secs * NANOS_PER_SEC,
    {
        let span: i128 = (secs as i128) * NANOS_PER_SEC;
        match self.nanos.checked_add(span) {
            Some(sum) => Timestamp { nanos: sum },
            None => Timestamp { nanos: i128::MAX },
        }
    }

    /// Whether `self` lies strictly after `other`.
    pub fn is_after(self, other: Timestamp) -> (later: bool)
        ensures
            later == (self@ > other@),
    {
        self.nanos > other.nanos
    }

    /// Whether more than `secs` seconds have passed at `self` since `since`.
    pub fn elapsed_exceeds(self, since: Timestamp, secs: i64) -> (exceeded: bool)
        ensures
            exceeded == elapsed_exceeds(self@, since@, secs as int),
    {
        let limit: i128 = (secs as i128) * NANOS_PER_SEC;
        match self.nanos.checked_sub(since.nanos) {
            Some(elapsed) => elapsed > limit,
            None => self.nanos >= since.nanos,
        }
    }

    /// Whether more than twice `secs` seconds have passed at `self` since
    /// `since`.
    pub fn elapsed_exceeds_twice(self, since: Timestamp, secs: i64) -> (exceeded: bool)
        ensures
            exceeded == elapsed_exceeds(self@, since@, 2 * secs),
    {
        let limit: i128 = (secs as i128) * (2 * NANOS_PER_SEC);
        assert(limit == 2 * secs * NANOS_PER_SEC) by (nonlinear_arith)
            requires
                limit == (secs as i128) * (2 * NANOS_PER_SEC),
                i64::MIN <= secs <= i64::MAX,
        ;
        match self.nanos.checked_sub(since.nanos) {
            Some(elapsed) => elapsed > limit,
            None => self.nanos >= since.nanos,
        }
    }
}

/// Reads the wall clock with `chrono::Utc::now` and hands back what
/// `DateTime::timestamp` and `DateTime::timestamp_subsec_nanos` give for
/// it. Nothing is claimed of the two numbers.
#[verifier::external_body]
fn read_system_clock() -> (parts: (i64, u32)) {
    let t = chrono::Utc::now();
    (t.timestamp(), t.timestamp_subsec_nanos())
}

} // verus!
