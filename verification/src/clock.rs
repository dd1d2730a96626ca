// Points in time, and the clock that tells the present one.

use vstd::prelude::*;

verus! {

/// The nanoseconds in one second.
pub const NANOS_PER_SECOND: i128 = 1_000_000_000;

/// A point in time: whole seconds since the Unix epoch, and the nanoseconds
/// past that second.
#[derive(Clone, Copy, Debug, PartialEq, Eq, Structural)]
pub struct Timestamp {
    pub secs: i64,
    pub nanos: u32,
}

impl Timestamp {
    /// The point in time as nanoseconds since the Unix epoch.
    pub open spec fn instant(self) -> int {
        self.secs * NANOS_PER_SECOND + self.nanos
    }

    /// The point in time `nanos` nanoseconds past the `secs`-th second since
    /// the Unix epoch.
    pub fn new(secs: i64, nanos: u32) -> (at: Timestamp)
        ensures
            at.secs == secs,
            at.nanos == nanos,
    {
        Timestamp { secs, nanos }
    }

    /// The nanoseconds that passed from `earlier` to this point in time;
    /// negative where `earlier` is the later of the two.
    pub fn nanos_since(&self, earlier: &Timestamp) -> (elapsed: i128)
        ensures
            elapsed == self.instant() - earlier.instant(),
    {
        let seconds: i128 = self.secs as i128 - earlier.secs as i128;
        let fraction: i128 = self.nanos as i128 - earlier.nanos as i128;
        assert(seconds * NANOS_PER_SECOND == self.secs * NANOS_PER_SECOND - earlier.secs
            * NANOS_PER_SECOND) by (nonlinear_arith)
            requires
                seconds == self.secs - earlier.secs,
        ;
        assert(-0x1_0000_0000_0000_0000 * 1_000_000_000 <= seconds * NANOS_PER_SECOND
            <= 0x1_0000_0000_0000_0000 * 1_000_000_000) by (nonlinear_arith)
            requires
                -0x1_0000_0000_0000_0000 <= seconds <= 0x1_0000_0000_0000_0000,
                NANOS_PER_SECOND == 1_000_000_000,
        ;
        seconds * NANOS_PER_SECOND + fraction
    }
}

/// The present time by `chrono::Utc::now`, taken apart with
/// `DateTime::timestamp` and `DateTime::timestamp_subsec_nanos`. The result
/// is whatever the system clock says, so nothing is claimed of it. chrono
/// stops the program where the clock stands before the Unix epoch.
#[verifier::external_body]
pub(crate) fn utc_now() -> (now: Timestamp) {
    let now = chrono::Utc::now();
    Timestamp { secs: now.timestamp(), nanos: now.timestamp_subsec_nanos() }
}

} // verus!
