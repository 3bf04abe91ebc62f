//! Values for the packet that shows a player their experience.

use vstd::prelude::*;

verus! {

/// `value`, or zero where it is negative.
pub open spec fn floored(value: int) -> int {
    if value < 0 {
        0
    } else {
        value
    }
}

/// `value`, or zero where it is negative.
pub fn floor_at_zero(value: i32) -> (floor: i32)
    ensures
        floor == floored(value as int),
{
    if value < 0 {
        0
    } else {
        value
    }
}

/// The level and the total experience as the packet carries them: neither is
/// ever negative.
#[derive(Clone, Copy, Debug, PartialEq, Eq, Structural)]
pub struct ExperienceCounters {
    pub level: i32,
    pub total_experience: i32,
}

impl ExperienceCounters {
    /// Both counters are at least zero.
    pub open spec fn wf(self) -> bool {
        self.level >= 0 && self.total_experience >= 0
    }

    /// The counters for the given values, each floored at zero.
    pub fn new(level: i32, total_experience: i32) -> (counters: ExperienceCounters)
        ensures
            counters.wf(),
            counters.level == floored(level as int),
            counters.total_experience == floored(total_experience as int),
    {
        ExperienceCounters { level: floor_at_zero(level), total_experience: floor_at_zero(total_experience) }
    }
}

/// Flooring a floored value changes nothing, so counters built from the
/// fields of well-formed counters are those counters.
pub proof fn lemma_floored_is_idempotent(value: int)
    ensures
        floored(floored(value)) == floored(value),
        floored(value) >= 0,
        value >= 0 ==> floored(value) == value,
{
}

} // verus!
