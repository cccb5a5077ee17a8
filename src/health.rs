use vstd::prelude::*;

verus! {

/// Hit points of a creature, kept within `[0, max_points]`.
#[derive(Clone, Copy, Debug, PartialEq, Eq, Structural)]
pub struct Health {
    pub points: u16,
    pub max_points: u16,
}

impl Health {
    pub open spec fn wf(self) -> bool {
        self.points <= self.max_points
    }

    /// Health after losing `amount` points; it stops at zero.
    pub open spec fn after_damage(self, amount: u32) -> Health {
        Health {
            points: if self.points > amount {
                (self.points - amount) as u16
            } else {
                0
            },
            ..self
        }
    }

    /// Health after gaining `amount` points; it stops at the maximum.
    pub open spec fn after_heal(self, amount: u32) -> Health {
        Health {
            points: if self.points + amount >= self.max_points {
                self.max_points
            } else {
                (self.points + amount) as u16
            },
            ..self
        }
    }

    pub open spec fn new_spec(points: u16) -> Health {
        Health { points, max_points: points }
    }

    /// Full health of `points`.
    pub fn new(points: u16) -> (r: Health)
        ensures
            r == Health::new_spec(points),
    {
        Health { points, max_points: points }
    }

    /// Current and maximum points, for display.
    pub fn progress(&self) -> (r: (u16, u16))
        ensures
            r == (self.points, self.max_points),
    {
        (self.points, self.max_points)
    }

    pub fn is_dead(&self) -> (r: bool)
        ensures
            r == (self.points == 0),
    {
        self.points == 0
    }

    pub fn lose(&mut self, amount: u32)
        ensures
            *final(self) == old(self).after_damage(amount),
    {
        if self.points as u32 > amount {
            self.points = self.points - amount as u16;
        } else {
            self.points = 0;
        }
    }

    pub fn gain(&mut self, amount: u32)
        ensures
            *final(self) == old(self).after_heal(amount),
    {
        if self.points as u64 + amount as u64 >= self.max_points as u64 {
            self.points = self.max_points;
        } else {
            self.points = self.points + amount as u16;
        }
    }
}

} // verus!
