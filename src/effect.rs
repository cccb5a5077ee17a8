use crate::critical::{is_critical_roll, magnitude, CRITICAL_MULTIPLIER, CRITICAL_SCALE};
use crate::health::Health;
use crate::timer::Timer;
use vstd::prelude::*;

verus! {

/// What an ability does to a target.
#[derive(Clone, Copy, Debug, PartialEq, Eq, Structural)]
pub enum Effect {
    Momentary(MomentaryEffect, MomentaryEffectSchedule),
    /// A status condition and how many milliseconds it lasts.
    Lasting(LastingEffect, u64),
}

/// A change of health, of a random base between two bounds (inclusive).
#[derive(Clone, Copy, Debug, PartialEq, Eq, Structural)]
pub enum MomentaryEffect {
    Damage(u16, u16),
    Heal(u16, u16),
}

#[derive(Clone, Copy, Debug, PartialEq, Eq, Structural)]
pub enum MomentaryEffectSchedule {
    Once,
    /// Applied again every interval for a total duration, both in milliseconds.
    Periodic(u64, u64),
}

#[derive(Clone, Copy, Debug, PartialEq, Eq, Structural)]
pub enum LastingEffect {
    /// Blocks every ability attempt of the affected creature.
    Silence,
}

/// Request to apply an effect from `source` to `target` (creature indices).
#[derive(Clone, Copy, Debug, PartialEq, Eq, Structural)]
pub struct PerformEffect {
    pub effect: Effect,
    pub source: usize,
    pub target: usize,
}

/// Request to apply one momentary effect from `source` to `target`.
#[derive(Clone, Copy, Debug, PartialEq, Eq, Structural)]
pub struct PerformMomentaryEffect {
    pub effect: MomentaryEffect,
    pub source: usize,
    pub target: usize,
}

/// Magnitude of an applied momentary effect and whether it was critical.
#[derive(Clone, Copy, Debug, PartialEq, Eq, Structural)]
pub enum PerformedMomentaryEffect {
    Damage(u32, bool),
    Heal(u32, bool),
}

/// Notification that a momentary effect was applied to `entity`.
#[derive(Clone, Copy, Debug, PartialEq, Eq, Structural)]
pub struct MomentaryEffectPerformed {
    pub entity: usize,
    pub performed_momentary_effect: PerformedMomentaryEffect,
}

/// A momentary effect that recurs on its holder.
#[derive(Clone, Copy, Debug, PartialEq, Eq, Structural)]
pub struct PeriodicMomentaryEffectInstance {
    pub effect: MomentaryEffect,
    pub interval_timer: Timer,
    pub duration_timer: Timer,
    pub source: usize,
}

/// Periodic momentary effects active on a creature, oldest first.
pub struct PeriodicMomentaryEffects {
    pub instances: Vec<PeriodicMomentaryEffectInstance>,
}

/// A status condition active on its holder.
#[derive(Clone, Copy, Debug, PartialEq, Eq, Structural)]
pub struct LastingEffectInstance {
    pub effect: LastingEffect,
    pub duration_timer: Timer,
    pub source: usize,
}

/// Lasting effects active on a creature, oldest first.
pub struct LastingEffects {
    pub instances: Vec<LastingEffectInstance>,
}

/// Lower and upper bound of the base points of a momentary effect.
pub open spec fn point_bounds(effect: MomentaryEffect) -> (u16, u16) {
    match effect {
        MomentaryEffect::Damage(min, max) => (min, max),
        MomentaryEffect::Heal(min, max) => (min, max),
    }
}

/// The applied form of `effect` for a base of `points`.
pub open spec fn performed(effect: MomentaryEffect, points: u16, critical: bool) -> PerformedMomentaryEffect {
    match effect {
        MomentaryEffect::Damage(_, _) => PerformedMomentaryEffect::Damage(
            magnitude(points, critical),
            critical,
        ),
        MomentaryEffect::Heal(_, _) => PerformedMomentaryEffect::Heal(
            magnitude(points, critical),
            critical,
        ),
    }
}

/// Health after an applied momentary effect.
pub open spec fn health_after(health: Health, p: PerformedMomentaryEffect) -> Health {
    match p {
        PerformedMomentaryEffect::Damage(amount, _) => health.after_damage(amount),
        PerformedMomentaryEffect::Heal(amount, _) => health.after_heal(amount),
    }
}

/// Relies on `rand::Rng::gen_range` over `thread_rng`: a value drawn from `low..=high`.
/// It panics on an empty range, which `requires` leaves out.
#[verifier::external_body]
fn roll_inclusive(low: u16, high: u16) -> (r: u16)
    requires
        low <= high,
    ensures
        low <= r <= high,
{
    rand::Rng::gen_range(&mut rand::thread_rng(), low..=high)
}

/// Draws the base points of `effect`, uniformly between its bounds.
pub fn roll_points(effect: MomentaryEffect) -> (r: u16)
    requires
        point_bounds(effect).0 <= point_bounds(effect).1,
    ensures
        point_bounds(effect).0 <= r <= point_bounds(effect).1,
{
    match effect {
        MomentaryEffect::Damage(min, max) => roll_inclusive(min, max),
        MomentaryEffect::Heal(min, max) => roll_inclusive(min, max),
    }
}

/// Draws a critical roll, uniformly in `[0, CRITICAL_SCALE)`.
pub fn roll_critical() -> (r: u16)
    ensures
        r < CRITICAL_SCALE,
{
    roll_inclusive(0, CRITICAL_SCALE - 1)
}

/// The applied form of `effect` for a base of `points` and the critical roll `roll`
/// against `chance`.
pub fn resolve_momentary(effect: MomentaryEffect, points: u16, chance: u16, roll: u16) -> (r:
    PerformedMomentaryEffect)
    ensures
        r == performed(effect, points, is_critical_roll(chance, roll)),
{
    let critical = roll < chance;
    let amount: u32 = if critical {
        points as u32 * CRITICAL_MULTIPLIER
    } else {
        points as u32
    };
    match effect {
        MomentaryEffect::Damage(_, _) => PerformedMomentaryEffect::Damage(amount, critical),
        MomentaryEffect::Heal(_, _) => PerformedMomentaryEffect::Heal(amount, critical),
    }
}

/// Applies a resolved momentary effect to `health`.
pub fn apply_performed(health: &mut Health, p: PerformedMomentaryEffect)
    ensures
        *final(health) == health_after(*old(health), p),
{
    match p {
        PerformedMomentaryEffect::Damage(amount, _) => health.lose(amount),
        PerformedMomentaryEffect::Heal(amount, _) => health.gain(amount),
    }
}

/// A lasting effect instance after `delta` milliseconds.
pub open spec fn lasting_instance_ticked(i: LastingEffectInstance, delta: u64) -> LastingEffectInstance {
    LastingEffectInstance { duration_timer: i.duration_timer.ticked(delta), ..i }
}

/// Lasting effects after `delta` milliseconds: each ages, and those that end leave.
pub open spec fn lasting_ticked(s: Seq<LastingEffectInstance>, delta: u64) -> Seq<
    LastingEffectInstance,
>
    decreases s.len(),
{
    if s.len() == 0 {
        seq![]
    } else {
        let prev = lasting_ticked(s.drop_last(), delta);
        let inst = lasting_instance_ticked(s.last(), delta);
        if inst.duration_timer.is_finished() {
            prev
        } else {
            prev.push(inst)
        }
    }
}

/// Some active lasting effect is a silence.
pub open spec fn has_silence(s: Seq<LastingEffectInstance>) -> bool {
    exists|i: int| 0 <= i < s.len() && #[trigger] s[i].effect == LastingEffect::Silence
}

impl LastingEffects {
    pub fn new() -> (r: LastingEffects)
        ensures
            r.instances@ == Seq::<LastingEffectInstance>::empty(),
    {
        LastingEffects { instances: Vec::new() }
    }

    pub fn is_silenced(&self) -> (r: bool)
        ensures
            r == has_silence(self.instances@),
    {
        let mut i: usize = 0;
        while i < self.instances.len()
            invariant
                forall|j: int| 0 <= j < i ==> self.instances@[j].effect != LastingEffect::Silence,
            decreases self.instances.len() - i,
        {
            match self.instances[i].effect {
                LastingEffect::Silence => return true,
            }
        }
        false
    }

    pub fn push(&mut self, instance: LastingEffectInstance)
        ensures
            final(self).instances@ == old(self).instances@.push(instance),
    {
        self.instances.push(instance);
    }

    pub fn tick(&mut self, delta: u64)
        ensures
            final(self).instances@ == lasting_ticked(old(self).instances@, delta),
    {
        let mut kept: Vec<LastingEffectInstance> = Vec::new();
        let mut i: usize = 0;
        while i < self.instances.len()
            invariant
                i <= self.instances.len(),
                kept@ == lasting_ticked(self.instances@.subrange(0, i as int), delta),
            decreases self.instances.len() - i,
        {
            let mut inst = self.instances[i];
            inst.duration_timer.tick(delta);
            if !inst.duration_timer.finished() {
                kept.push(inst);
            }
            assert(self.instances@.subrange(0, i + 1).drop_last() =~= self.instances@.subrange(
                0,
                i as int,
            ));
            i = i + 1;
        }
        assert(self.instances@.subrange(0, i as int) =~= self.instances@);
        self.instances = kept;
    }
}

/// A periodic instance after `delta` milliseconds.
pub open spec fn periodic_instance_ticked(
    i: PeriodicMomentaryEffectInstance,
    delta: u64,
) -> PeriodicMomentaryEffectInstance {
    PeriodicMomentaryEffectInstance {
        interval_timer: i.interval_timer.ticked_repeating(delta),
        duration_timer: i.duration_timer.ticked(delta),
        ..i
    }
}

/// Periodic effects after `delta` milliseconds: each ages, and those whose total
/// duration ends leave.
pub open spec fn periodic_ticked(s: Seq<PeriodicMomentaryEffectInstance>, delta: u64) -> Seq<
    PeriodicMomentaryEffectInstance,
>
    decreases s.len(),
{
    if s.len() == 0 {
        seq![]
    } else {
        let prev = periodic_ticked(s.drop_last(), delta);
        let inst = periodic_instance_ticked(s.last(), delta);
        if inst.duration_timer.is_finished() {
            prev
        } else {
            prev.push(inst)
        }
    }
}

/// The momentary effects that periodic instances held by `target` apply within the
/// next `delta` milliseconds: one for each instance whose interval completes, in order.
pub open spec fn periodic_fired(
    s: Seq<PeriodicMomentaryEffectInstance>,
    delta: u64,
    target: usize,
) -> Seq<PerformMomentaryEffect>
    decreases s.len(),
{
    if s.len() == 0 {
        seq![]
    } else {
        let prev = periodic_fired(s.drop_last(), delta, target);
        if s.last().interval_timer.fires(delta) {
            prev.push(
                PerformMomentaryEffect { effect: s.last().effect, source: s.last().source, target },
            )
        } else {
            prev
        }
    }
}

impl PeriodicMomentaryEffects {
    pub fn new() -> (r: PeriodicMomentaryEffects)
        ensures
            r.instances@ == Seq::<PeriodicMomentaryEffectInstance>::empty(),
    {
        PeriodicMomentaryEffects { instances: Vec::new() }
    }

    pub fn push(&mut self, instance: PeriodicMomentaryEffectInstance)
        ensures
            final(self).instances@ == old(self).instances@.push(instance),
    {
        self.instances.push(instance);
    }

    /// Ages every instance held by `target`; returns the effects that fire.
    pub fn tick(&mut self, delta: u64, target: usize) -> (fired: Vec<PerformMomentaryEffect>)
        ensures
            final(self).instances@ == periodic_ticked(old(self).instances@, delta),
            fired@ == periodic_fired(old(self).instances@, delta, target),
    {
        let mut kept: Vec<PeriodicMomentaryEffectInstance> = Vec::new();
        let mut fired: Vec<PerformMomentaryEffect> = Vec::new();
        let mut i: usize = 0;
        while i < self.instances.len()
            invariant
                i <= self.instances.len(),
                kept@ == periodic_ticked(self.instances@.subrange(0, i as int), delta),
                fired@ == periodic_fired(self.instances@.subrange(0, i as int), delta, target),
            decreases self.instances.len() - i,
        {
            let mut inst = self.instances[i];
            if inst.interval_timer.tick_repeating(delta) {
                fired.push(PerformMomentaryEffect { effect: inst.effect, source: inst.source, target });
            }
            inst.duration_timer.tick(delta);
            if !inst.duration_timer.finished() {
                kept.push(inst);
            }
            assert(self.instances@.subrange(0, i + 1).drop_last() =~= self.instances@.subrange(
                0,
                i as int,
            ));
            i = i + 1;
        }
        assert(self.instances@.subrange(0, i as int) =~= self.instances@);
        self.instances = kept;
        fired
    }
}

} // verus!
