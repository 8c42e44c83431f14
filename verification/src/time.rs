use vstd::prelude::*;

verus! {

/// The external unit of staking time (era, slashing span, round, block
/// group or hour) used to rate-limit exchange-rate tuning. Two epochs are
/// comparable only within the same variant.
#[derive(Clone, Copy, PartialEq, Eq, Structural, Debug)]
pub enum TimeUnit {
    Era(u32),
    SlashingSpan(u32),
    Round(u32),
    Kblock(u32),
    Hour(u32),
}

impl TimeUnit {
    /// The epoch one step later, saturating at the largest counter value.
    pub open spec fn spec_add_one(self) -> TimeUnit {
        match self {
            TimeUnit::Era(a) => TimeUnit::Era(sat_add_one_u32(a)),
            TimeUnit::SlashingSpan(a) => TimeUnit::SlashingSpan(sat_add_one_u32(a)),
            TimeUnit::Round(a) => TimeUnit::Round(sat_add_one_u32(a)),
            TimeUnit::Kblock(a) => TimeUnit::Kblock(sat_add_one_u32(a)),
            TimeUnit::Hour(a) => TimeUnit::Hour(sat_add_one_u32(a)),
        }
    }

    pub fn add_one(self) -> (r: TimeUnit)
        ensures
            r == self.spec_add_one(),
    {
        match self {
            TimeUnit::Era(a) => TimeUnit::Era(sat_add_one(a)),
            TimeUnit::SlashingSpan(a) => TimeUnit::SlashingSpan(sat_add_one(a)),
            TimeUnit::Round(a) => TimeUnit::Round(sat_add_one(a)),
            TimeUnit::Kblock(a) => TimeUnit::Kblock(sat_add_one(a)),
            TimeUnit::Hour(a) => TimeUnit::Hour(sat_add_one(a)),
        }
    }

    /// Saturating addition of two epochs; defined only for eras.
    pub fn add(self, other_time: TimeUnit) -> (r: Option<TimeUnit>)
        ensures
            match (self, other_time) {
                (TimeUnit::Era(a), TimeUnit::Era(b)) => r == Some(
                    TimeUnit::Era(sat_add_u32(a, b)),
                ),
                _ => r is None,
            },
    {
        match (self, other_time) {
            (TimeUnit::Era(a), TimeUnit::Era(b)) => Some(TimeUnit::Era(sat_add(a, b))),
            _ => None,
        }
    }
}

impl Default for TimeUnit {
    fn default() -> (r: TimeUnit)
        ensures
            r == TimeUnit::Era(0u32),
    {
        TimeUnit::Era(0)
    }
}

pub open spec fn sat_add_one_u32(a: u32) -> u32 {
    if a == u32::MAX {
        a
    } else {
        (a + 1) as u32
    }
}

pub open spec fn sat_add_u32(a: u32, b: u32) -> u32 {
    if a + b > u32::MAX {
        u32::MAX
    } else {
        (a + b) as u32
    }
}

fn sat_add_one(a: u32) -> (r: u32)
    ensures
        r == sat_add_one_u32(a),
{
    if a == u32::MAX {
        a
    } else {
        a + 1
    }
}

fn sat_add(a: u32, b: u32) -> (r: u32)
    ensures
        r == sat_add_u32(a, b),
{
    if a > u32::MAX - b {
        u32::MAX
    } else {
        a + b
    }
}

} // verus!
