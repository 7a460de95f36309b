use vstd::prelude::*;

verus! {

/// How long a record may stay idle before it is pinged, and how long a ping
/// may stay unanswered before the record is evicted, in seconds.
pub const HEARTBEAT_SECONDS: i64 = 10;

/// An instant: whole seconds since the Unix epoch and the nanoseconds past
/// that second.
#[derive(Clone, Copy, Debug, PartialEq, Eq, Structural)]
pub struct Timestamp {
    pub secs: i64,
    pub nanos: u32,
}

impl Timestamp {
    /// The instant as nanoseconds since the epoch.
    pub open spec fn as_nanos(self) -> int {
        self.secs * 1_000_000_000 + self.nanos
    }

    /// Nanoseconds that have passed at `self` since `earlier` (negative when
    /// `earlier` is the later one).
    pub open spec fn nanos_since(self, earlier: Timestamp) -> int {
        self.as_nanos() - earlier.as_nanos()
    }

    /// Whether a full heartbeat period lies between `earlier` and `self`.
    pub open spec fn spec_period_elapsed_since(self, earlier: Timestamp) -> bool {
        self.nanos_since(earlier) >= HEARTBEAT_SECONDS * 1_000_000_000
    }

    pub fn new(secs: i64, nanos: u32) -> (t: Timestamp)
        ensures
            t.secs == secs,
            t.nanos == nanos,
    {
        Timestamp { secs, nanos }
    }

    pub fn period_elapsed_since(&self, earlier: &Timestamp) -> (elapsed: bool)
        ensures
            elapsed == self.spec_period_elapsed_since(*earlier),
    {
        let secs: i128 = self.secs as i128 - earlier.secs as i128;
        let nanos: i128 = self.nanos as i128 - earlier.nanos as i128;
        assert(secs * 1_000_000_000 + nanos == self.nanos_since(*earlier)) by (nonlinear_arith)
            requires
                secs == self.secs - earlier.secs,
                nanos == self.nanos - earlier.nanos,
                self.nanos_since(*earlier) == (self.secs * 1_000_000_000 + self.nanos) - (
                earlier.secs * 1_000_000_000 + earlier.nanos),
        ;
        secs * 1_000_000_000 + nanos >= 10_000_000_000
    }
}

/// The present instant, read from the system clock by `chrono::Utc::now()`
/// and split by `DateTime::timestamp` and `DateTime::timestamp_subsec_nanos`
/// into whole seconds since the epoch and the nanoseconds past that second.
/// Trusted; nothing is claimed about which instant comes back.
#[verifier::external_body]
pub(crate) fn current_time() -> (now: Timestamp) {
    let now = chrono::Utc::now();
    Timestamp { secs: now.timestamp(), nanos: now.timestamp_subsec_nanos() }
}

} // verus!
