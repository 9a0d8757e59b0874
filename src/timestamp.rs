use vstd::prelude::*;

verus! {

/// Seconds in one day.
pub const SECONDS_PER_DAY: i64 = 86400;

/// A UTC instant: whole seconds since the Unix epoch and the nanoseconds
/// past that second (a leap second may carry a nanosecond count of one
/// second or more).
#[derive(Clone, Copy, Debug, PartialEq, Eq, Structural)]
pub struct Timestamp {
    pub seconds: i64,
    pub nanos: u32,
}

/// `a` does not come after `b`: instants are ordered by their seconds, then
/// by their nanoseconds.
pub open spec fn at_or_before(a: Timestamp, b: Timestamp) -> bool {
    a.seconds < b.seconds || (a.seconds == b.seconds && a.nanos <= b.nanos)
}

impl Timestamp {
    /// Whether `self` lies strictly before `other`.
    pub fn is_before(&self, other: &Timestamp) -> (r: bool)
        ensures
            r == !at_or_before(*other, *self),
    {
        self.seconds < other.seconds || (self.seconds == other.seconds && self.nanos < other.nanos)
    }

    /// The instant `days` whole days before `self`, or `None` where it
    /// falls outside the range of the seconds counter.
    pub fn days_before(&self, days: u64) -> (r: Option<Timestamp>)
        ensures
            match r {
                Some(t) => t.nanos == self.nanos && t.seconds == self.seconds - days * 86400,
                None => self.seconds - days * 86400 < i64::MIN,
            },
    {
        proof {
            assert(0 <= days * 86400 <= 86400 * 0xffff_ffff_ffff_ffff) by (nonlinear_arith)
                requires days <= 0xffff_ffff_ffff_ffff;
        }
        let span: i128 = days as i128 * SECONDS_PER_DAY as i128;
        let shifted: i128 = self.seconds as i128 - span;
        if shifted < i64::MIN as i128 {
            None
        } else {
            Some(Timestamp { seconds: shifted as i64, nanos: self.nanos })
        }
    }
}

} // verus!
