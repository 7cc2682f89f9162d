//! Readings of a monotonic clock.

use vstd::prelude::*;

verus! {

/// A reading of a monotonic clock: nanoseconds since an origin that all readings share.
#[derive(Debug, Clone, Copy, PartialEq, Eq, Structural)]
pub struct Moment {
    pub nanos: u64,
}

impl Moment {
    /// The reading `seconds` later.
    pub fn plus_secs(self, seconds: u64) -> (res: Moment)
        requires
            self.nanos + seconds * 1_000_000_000 <= u64::MAX,
        ensures
            res.nanos == self.nanos + seconds * 1_000_000_000,
    {
        Moment { nanos: self.nanos + seconds * 1_000_000_000 }
    }
}

} // verus!
