//! Points in time.
use vstd::prelude::*;

verus! {

/// A point in time, as the time that has passed since a start that the owner of the
/// dispatcher chose.
#[derive(Clone, Copy, Debug, PartialEq, Eq, Structural)]
pub struct Moment {
    /// Whole seconds since the start.
    pub secs: u64,
    /// Nanoseconds beyond the whole seconds.
    pub nanos: u32,
}

impl Moment {
    /// The moment `secs` seconds later.
    pub open spec fn later(self, secs: u16) -> Moment {
        Moment { secs: (self.secs + secs) as u64, nanos: self.nanos }
    }

    /// Whether the moment `secs` seconds later can be represented.
    pub open spec fn fits(self, secs: u16) -> bool {
        self.secs + secs <= u64::MAX
    }

    /// The moment `secs` seconds later.
    pub fn plus(self, secs: u16) -> (moment: Moment)
        requires
            self.fits(secs),
        ensures
            moment == self.later(secs),
    {
        Moment { secs: self.secs + secs as u64, nanos: self.nanos }
    }

    /// Whether the moment `secs` seconds later can be represented.
    pub fn can_add(self, secs: u16) -> (fits: bool)
        ensures
            fits == self.fits(secs),
    {
        self.secs <= u64::MAX - secs as u64
    }
}

/// The moment `secs` seconds later is that many seconds away, and no other time is added. It
/// can be represented if the seconds can be counted.
pub proof fn later_adds_seconds(moment: Moment, secs: u16)
    ensures
        moment.fits(secs) <==> moment.secs + secs <= u64::MAX,
        moment.fits(secs) ==> moment.later(secs).secs == moment.secs + secs,
        moment.later(secs).nanos == moment.nanos,
{
}

} // verus!
