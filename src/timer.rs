use vstd::prelude::*;

verus! {

/// A countdown over simulated time, in milliseconds.
#[derive(Clone, Copy, Debug, PartialEq, Eq, Structural)]
pub struct Timer {
    pub duration: u64,
    pub elapsed: u64,
}

impl Timer {
    pub open spec fn is_finished(self) -> bool {
        self.elapsed >= self.duration
    }

    /// A one-shot timer after `delta` more milliseconds: elapsed time stops at the duration.
    pub open spec fn ticked(self, delta: u64) -> Timer {
        Timer {
            elapsed: if self.elapsed + delta >= self.duration {
                self.duration
            } else {
                (self.elapsed + delta) as u64
            },
            ..self
        }
    }

    /// A repeating timer after `delta` more milliseconds: elapsed time wraps at the duration.
    pub open spec fn ticked_repeating(self, delta: u64) -> Timer {
        Timer {
            elapsed: if self.duration == 0 {
                self.elapsed
            } else {
                ((self.elapsed + delta) % (self.duration as int)) as u64
            },
            ..self
        }
    }

    /// Whether a repeating timer completes a period within the next `delta` milliseconds.
    pub open spec fn fires(self, delta: u64) -> bool {
        self.elapsed + delta >= self.duration
    }

    pub fn new(duration: u64) -> (r: Timer)
        ensures
            r.duration == duration,
            r.elapsed == 0,
    {
        Timer { duration, elapsed: 0 }
    }

    pub fn finished(&self) -> (r: bool)
        ensures
            r == self.is_finished(),
    {
        self.elapsed >= self.duration
    }

    /// Milliseconds left before the timer finishes.
    pub fn remaining(&self) -> (r: u64)
        ensures
            r == (if self.is_finished() {
                0
            } else {
                self.duration - self.elapsed
            }),
    {
        if self.elapsed >= self.duration {
            0
        } else {
            self.duration - self.elapsed
        }
    }

    pub fn tick(&mut self, delta: u64)
        ensures
            *final(self) == old(self).ticked(delta),
    {
        if self.elapsed >= self.duration || delta >= self.duration - self.elapsed {
            self.elapsed = self.duration;
        } else {
            self.elapsed = self.elapsed + delta;
        }
    }

    /// Advances a repeating timer; returns whether it completed a period.
    pub fn tick_repeating(&mut self, delta: u64) -> (fired: bool)
        ensures
            *final(self) == old(self).ticked_repeating(delta),
            fired == old(self).fires(delta),
    {
        let fired = self.elapsed as u128 + delta as u128 >= self.duration as u128;
        if self.duration > 0 {
            let wrapped = (self.elapsed as u128 + delta as u128) % self.duration as u128;
            assert(wrapped < self.duration);
            self.elapsed = wrapped as u64;
        }
        fired
    }
}

} // verus!
