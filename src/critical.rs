use vstd::prelude::*;

verus! {

/// Factor applied to the magnitude of a critical momentary effect.
pub const CRITICAL_MULTIPLIER: u32 = 2;

/// Chances are counted out of this many.
pub const CRITICAL_SCALE: u16 = 10000;

/// Default chance of a critical effect: five percent.
pub const CRITICAL_CHANCE: u16 = 500;

/// Chance, out of `CRITICAL_SCALE`, that a momentary effect from this creature is
/// critical. Any value of `CRITICAL_SCALE` or more is a certainty.
#[derive(Clone, Copy, Debug, PartialEq, Eq, Structural)]
pub struct Critical {
    pub chance: u16,
}

impl Default for Critical {
    fn default() -> (r: Critical)
        ensures
            r.chance == CRITICAL_CHANCE,
    {
        Critical { chance: CRITICAL_CHANCE }
    }
}

/// A roll, uniform in `[0, CRITICAL_SCALE)`, is critical when it falls under the chance.
pub open spec fn is_critical_roll(chance: u16, roll: u16) -> bool {
    roll < chance
}

/// Magnitude of a momentary effect of base `points`, doubled when critical.
pub open spec fn magnitude(points: u16, critical: bool) -> u32 {
    if critical {
        (points * CRITICAL_MULTIPLIER) as u32
    } else {
        points as u32
    }
}

} // verus!
