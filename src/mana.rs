use crate::timer::Timer;
use vstd::prelude::*;

verus! {

/// Mana gained per regeneration step.
pub const REGEN_MANA_POINTS: u16 = 1;

/// Milliseconds between two regeneration steps.
pub const REGEN_MANA_INTERVAL: u64 = 500;

/// Milliseconds during which regeneration stays off after a completed cast.
pub const REGEN_MANA_COOLDOWN_DURATION: u64 = 5000;

/// Mana pool of a creature, kept within `[0, max_points]`.
#[derive(Clone, Copy, Debug, PartialEq, Eq, Structural)]
pub struct Mana {
    pub points: u16,
    pub max_points: u16,
    pub regen_points: u16,
}

impl Mana {
    pub open spec fn wf(self) -> bool {
        self.points <= self.max_points
    }

    /// Mana after `steps` regeneration steps; it stops at the maximum.
    pub open spec fn regenerated(self, steps: nat) -> Mana {
        Mana {
            points: if self.points >= self.max_points {
                self.points
            } else if self.points + steps * self.regen_points >= self.max_points {
                self.max_points
            } else {
                (self.points + steps * self.regen_points) as u16
            },
            ..self
        }
    }

    /// A full pool of `points` that regenerates the default amount.
    pub fn new(points: u16) -> (r: Mana)
        ensures
            r.points == points,
            r.max_points == points,
            r.regen_points == REGEN_MANA_POINTS,
    {
        Mana { points, max_points: points, regen_points: REGEN_MANA_POINTS }
    }

    /// Current and maximum points, for display.
    pub fn progress(&self) -> (r: (u16, u16))
        ensures
            r == (self.points, self.max_points),
    {
        (self.points, self.max_points)
    }

    pub fn regenerate(&mut self, steps: u64)
        ensures
            *final(self) == old(self).regenerated(steps as nat),
    {
        if self.points >= self.max_points {
            return;
        }
        proof {
            assert(steps * self.regen_points <= 0xffff_ffff_ffff_ffff * 0xffff) by (nonlinear_arith)
                requires
                    steps <= 0xffff_ffff_ffff_ffff,
                    self.regen_points <= 0xffff,
            ;
        }
        let gain: u128 = steps as u128 * self.regen_points as u128;
        if self.points as u128 + gain >= self.max_points as u128 {
            self.points = self.max_points;
        } else {
            self.points = (self.points as u128 + gain) as u16;
        }
    }

    /// Takes `cost` points from the pool.
    pub fn spend(&mut self, cost: u16)
        requires
            cost <= old(self).points,
        ensures
            *final(self) == (Mana { points: (old(self).points - cost) as u16, ..*old(self) }),
    {
        self.points = self.points - cost;
    }
}

/// Keeps mana from regenerating for a while after a cast.
#[derive(Clone, Copy, Debug, PartialEq, Eq, Structural)]
pub struct RegenManaCooldown {
    pub duration_timer: Timer,
}

impl RegenManaCooldown {
    pub open spec fn fresh() -> RegenManaCooldown {
        RegenManaCooldown {
            duration_timer: Timer { duration: REGEN_MANA_COOLDOWN_DURATION, elapsed: 0 },
        }
    }

    pub fn new() -> (r: RegenManaCooldown)
        ensures
            r == RegenManaCooldown::fresh(),
    {
        RegenManaCooldown { duration_timer: Timer::new(REGEN_MANA_COOLDOWN_DURATION) }
    }
}

} // verus!
