use crate::ability::{
    TILE_SIZE, cooldowns_ticked, cooldowns_without, on_cooldown, target_position_check,
    verify_target_position, Ability, AbilityCooldownInstance, AbilityCooldowns,
    AbilityGlobalCooldown, AbilityTargetMode, CancelCastAbility, CastAbility,
    TargetPositionError, TryAbility,
};
use crate::critical::{is_critical_roll, Critical, CRITICAL_CHANCE, CRITICAL_SCALE};
use crate::effect::{
    apply_performed, has_silence, health_after, lasting_ticked, performed, periodic_fired,
    periodic_ticked, point_bounds, resolve_momentary, roll_critical, roll_points, Effect,
    LastingEffectInstance, LastingEffects, MomentaryEffect,
    MomentaryEffectPerformed, MomentaryEffectSchedule, PerformEffect, PerformMomentaryEffect,
    PeriodicMomentaryEffectInstance, PeriodicMomentaryEffects,
};
use crate::timer::Timer;
use crate::geometry::Vec2;
use crate::health::Health;
use crate::mana::{Mana, RegenManaCooldown, REGEN_MANA_INTERVAL, REGEN_MANA_POINTS};
use vstd::prelude::*;

verus! {

/// Why an ability attempt was rejected. A rejection changes nothing.
#[derive(Clone, Copy, Debug, PartialEq, Eq, Structural)]
pub enum AbilityError {
    AlreadyCasting,
    Silenced,
    InterruptedByMovement,
    OnAbilityCooldown,
    OnGlobalCooldown,
    InsufficientMana,
    NoTarget,
    OutOfRange,
    NoLineOfSight,
}

/// The bounds of a momentary effect are in order.
pub open spec fn effect_wf(effect: Effect) -> bool {
    match effect {
        Effect::Momentary(m, _) => point_bounds(m).0 <= point_bounds(m).1,
        Effect::Lasting(_, _) => true,
    }
}

impl Ability {
    /// Every momentary effect of the ability has its bounds in order.
    pub open spec fn wf(self) -> bool {
        effect_wf(self.effect.0) && match self.secondary_effect {
            Some(e) => effect_wf(e.0),
            None => true,
        }
    }
}

fn momentary_is_valid(m: MomentaryEffect) -> (r: bool)
    ensures
        r == (point_bounds(m).0 <= point_bounds(m).1),
{
    match m {
        MomentaryEffect::Damage(min, max) => min <= max,
        MomentaryEffect::Heal(min, max) => min <= max,
    }
}

fn effect_is_valid(effect: Effect) -> (r: bool)
    ensures
        r == effect_wf(effect),
{
    match effect {
        Effect::Momentary(m, _) => momentary_is_valid(m),
        Effect::Lasting(_, _) => true,
    }
}

/// Every periodic instance has its bounds in order.
pub open spec fn periodic_wf(s: Seq<PeriodicMomentaryEffectInstance>) -> bool {
    forall|i: int|
        0 <= i < s.len() ==> point_bounds(#[trigger] s[i].effect).0 <= point_bounds(s[i].effect).1
}

proof fn lemma_periodic_ticked_wf(s: Seq<PeriodicMomentaryEffectInstance>, delta: u64)
    requires
        periodic_wf(s),
    ensures
        periodic_wf(periodic_ticked(s, delta)),
    decreases s.len(),
{
    if s.len() > 0 {
        assert(periodic_wf(s.drop_last())) by {
            assert forall|i: int| 0 <= i < s.drop_last().len() implies point_bounds(
                #[trigger] s.drop_last()[i].effect,
            ).0 <= point_bounds(s.drop_last()[i].effect).1 by {
                assert(s.drop_last()[i] == s[i]);
            }
        }
        lemma_periodic_ticked_wf(s.drop_last(), delta);
        assert(point_bounds(s[s.len() - 1].effect).0 <= point_bounds(s[s.len() - 1].effect).1);
    }
}

pub(crate) proof fn lemma_periodic_fired_wf(s: Seq<PeriodicMomentaryEffectInstance>, delta: u64, target: usize)
    requires
        periodic_wf(s),
    ensures
        forall|i: int|
            0 <= i < periodic_fired(s, delta, target).len() ==> point_bounds(
                (#[trigger] periodic_fired(s, delta, target)[i]).effect,
            ).0 <= point_bounds(periodic_fired(s, delta, target)[i].effect).1,
    decreases s.len(),
{
    if s.len() > 0 {
        assert(periodic_wf(s.drop_last())) by {
            assert forall|i: int| 0 <= i < s.drop_last().len() implies point_bounds(
                #[trigger] s.drop_last()[i].effect,
            ).0 <= point_bounds(s.drop_last()[i].effect).1 by {
                assert(s.drop_last()[i] == s[i]);
            }
        }
        lemma_periodic_fired_wf(s.drop_last(), delta, target);
        assert(point_bounds(s[s.len() - 1].effect).0 <= point_bounds(s[s.len() - 1].effect).1);
    }
}

impl Ability {
    pub fn is_valid(&self) -> (r: bool)
        ensures
            r == self.wf(),
    {
        effect_is_valid(self.effect.0) && match self.secondary_effect {
            Some(e) => effect_is_valid(e.0),
            None => true,
        }
    }
}

/// Everything the engine keeps about one creature.
pub struct Creature {
    pub position: Vec2,
    /// Set while the creature moves.
    pub changing_position: bool,
    pub health: Health,
    pub mana: Mana,
    pub critical: Critical,
    pub ability_cooldowns: AbilityCooldowns,
    pub ability_global_cooldown: Option<AbilityGlobalCooldown>,
    pub regen_mana_cooldown: Option<RegenManaCooldown>,
    pub cast_ability: Option<CastAbility>,
    pub periodic_momentary_effects: PeriodicMomentaryEffects,
    pub lasting_effects: LastingEffects,
}

impl Creature {
    pub open spec fn wf(self) -> bool {
        &&& self.health.wf()
        &&& self.mana.wf()
        &&& match self.cast_ability {
            Some(c) => c.ability.mana_points <= self.mana.points && c.ability.wf(),
            None => true,
        }
        &&& periodic_wf(self.periodic_momentary_effects.instances@)
    }

    /// A creature at `position`, at full health and mana, with nothing active.
    pub fn new(position: Vec2, health_points: u16, mana_points: u16) -> (r: Creature)
        ensures
            r.wf(),
            r.position == position,
            !r.changing_position,
            r.health == Health::new_spec(health_points),
            r.mana == (Mana { points: mana_points, max_points: mana_points, regen_points: REGEN_MANA_POINTS }),
            r.critical.chance == CRITICAL_CHANCE,
            r.ability_cooldowns.instances@.len() == 0,
            r.ability_global_cooldown.is_none(),
            r.regen_mana_cooldown.is_none(),
            r.cast_ability.is_none(),
            r.periodic_momentary_effects.instances@.len() == 0,
            r.lasting_effects.instances@.len() == 0,
    {
        Creature {
            position,
            changing_position: false,
            health: Health::new(health_points),
            mana: Mana::new(mana_points),
            critical: Critical::default(),
            ability_cooldowns: AbilityCooldowns::new(),
            ability_global_cooldown: None,
            regen_mana_cooldown: None,
            cast_ability: None,
            periodic_momentary_effects: PeriodicMomentaryEffects::new(),
            lasting_effects: LastingEffects::new(),
        }
    }
}

/// The creatures, indexed by position in `creatures`, and the static obstacles.
pub struct World {
    pub creatures: Vec<Creature>,
    pub obstacles: Vec<Vec2>,
    /// Milliseconds since the last mana regeneration step.
    pub regen_elapsed: u64,
}

/// Positions of the creatures, in order.
pub open spec fn positions(creatures: Seq<Creature>) -> Seq<Vec2> {
    creatures.map_values(|c: Creature| c.position)
}

/// Whether creature `i` is a valid area target of an effect of `source` with `range`.
pub open spec fn in_area(
    positions: Seq<Vec2>,
    obstacles: Seq<Vec2>,
    source: int,
    range: u32,
    i: int,
) -> bool {
    i != source && target_position_check(positions[source], positions[i], range, obstacles)
        == Ok::<(), TargetPositionError>(())
}

/// Effect requests of an area effect, for the first `k` creatures, in order.
pub open spec fn area_events(
    positions: Seq<Vec2>,
    obstacles: Seq<Vec2>,
    source: usize,
    effect: Effect,
    range: u32,
    k: int,
) -> Seq<PerformEffect>
    decreases k,
{
    if k <= 0 {
        seq![]
    } else {
        let prev = area_events(positions, obstacles, source, effect, range, k - 1);
        if in_area(positions, obstacles, source as int, range, k - 1) {
            prev.push(PerformEffect { effect, source, target: (k - 1) as usize })
        } else {
            prev
        }
    }
}

/// Effect requests of one effect of an ability: the chosen target, when it exists, or
/// every creature in the area.
pub open spec fn effect_events(
    positions: Seq<Vec2>,
    obstacles: Seq<Vec2>,
    source: usize,
    effect: (Effect, AbilityTargetMode),
    range: u32,
    target: Option<usize>,
) -> Seq<PerformEffect> {
    match effect.1 {
        AbilityTargetMode::Single => match target {
            Some(t) => if t < positions.len() {
                seq![PerformEffect { effect: effect.0, source, target: t }]
            } else {
                seq![]
            },
            None => seq![],
        },
        AbilityTargetMode::Area => area_events(
            positions,
            obstacles,
            source,
            effect.0,
            range,
            positions.len() as int,
        ),
    }
}

/// Effect requests of a resolved ability: its effect, then its secondary effect.
pub open spec fn resolution_events(
    positions: Seq<Vec2>,
    obstacles: Seq<Vec2>,
    source: usize,
    ability: Ability,
    target: Option<usize>,
) -> Seq<PerformEffect> {
    effect_events(positions, obstacles, source, ability.effect, ability.range, target) + match ability.secondary_effect {
        Some(e) => effect_events(positions, obstacles, source, e, ability.range, target),
        None => seq![],
    }
}

/// Creature `after` is `before` having resolved `ability`: the cost is paid,
/// regeneration pauses, and the ability's cooldown starts if it has one.
pub open spec fn resolved_by(before: Creature, after: Creature, ability: Ability) -> bool {
    &&& after == Creature {
        mana: Mana { points: (before.mana.points - ability.mana_points) as u16, ..before.mana },
        regen_mana_cooldown: Some(RegenManaCooldown::fresh()),
        ability_cooldowns: after.ability_cooldowns,
        ..before
    }
    &&& after.ability_cooldowns.instances@ == if ability.cooldown_duration > 0 {
        cooldowns_without(before.ability_cooldowns.instances@, ability.id).push(
            AbilityCooldownInstance::started(ability),
        )
    } else {
        before.ability_cooldowns.instances@
    }
}

/// The outcome of the checks on an attempt, in their order.
pub open spec fn attempt_check(w: World, request: TryAbility) -> Result<(), AbilityError> {
    let c = w.creatures@[request.source as int];
    let a = request.ability;
    if c.cast_ability.is_some() {
        Err(AbilityError::AlreadyCasting)
    } else if has_silence(c.lasting_effects.instances@) {
        Err(AbilityError::Silenced)
    } else if c.changing_position && a.cast_duration > 0 {
        Err(AbilityError::InterruptedByMovement)
    } else if on_cooldown(c.ability_cooldowns.instances@, a.id) {
        Err(AbilityError::OnAbilityCooldown)
    } else if c.ability_global_cooldown.is_some() {
        Err(AbilityError::OnGlobalCooldown)
    } else if a.mana_points > c.mana.points {
        Err(AbilityError::InsufficientMana)
    } else if a.spec_requires_target() {
        match request.target {
            None => Err(AbilityError::NoTarget),
            Some(t) => if t >= w.creatures.len() {
                Err(AbilityError::NoTarget)
            } else if t == request.source {
                Ok(())
            } else {
                match target_position_check(
                    c.position,
                    w.creatures@[t as int].position,
                    a.range,
                    w.obstacles@,
                ) {
                    Err(TargetPositionError::Range) => Err(AbilityError::OutOfRange),
                    Err(TargetPositionError::Sight) => Err(AbilityError::NoLineOfSight),
                    Ok(_) => Ok(()),
                }
            },
        }
    } else {
        Ok(())
    }
}

/// `after` is `before` once `request` was handled with result `r`: a rejection changes
/// nothing; an accepted timed ability starts the global cooldown and a cast; an accepted
/// instant ability starts the global cooldown and resolves at once.
pub open spec fn attempt_handled(
    before: World,
    after: World,
    request: TryAbility,
    r: Result<Seq<PerformEffect>, AbilityError>,
) -> bool {
    let s = request.source as int;
    let c = before.creatures@[s];
    let cooling = Creature { ability_global_cooldown: Some(AbilityGlobalCooldown::fresh()), ..c };
    match attempt_check(before, request) {
        Err(e) => r == Err::<Seq<PerformEffect>, AbilityError>(e) && after == before,
        Ok(_) => {
            &&& r.is_ok()
            &&& after.obstacles == before.obstacles
            &&& after.regen_elapsed == before.regen_elapsed
            &&& after.creatures@ == before.creatures@.update(s, after.creatures@[s])
            &&& if request.ability.cast_duration > 0 {
                &&& after.creatures@[s] == Creature {
                    cast_ability: Some(CastAbility::started(request.ability, request.target)),
                    ..cooling
                }
                &&& r == Ok::<Seq<PerformEffect>, AbilityError>(seq![])
            } else {
                &&& resolved_by(cooling, after.creatures@[s], request.ability)
                &&& r == Ok::<Seq<PerformEffect>, AbilityError>(
                    resolution_events(
                        positions(before.creatures@),
                        before.obstacles@,
                        request.source,
                        request.ability,
                        request.target,
                    ),
                )
            }
        },
    }
}

/// `after` is `before` once the cancellation `request` was handled: the cast in
/// progress of its source, if any, is dropped, and nothing else changes.
pub open spec fn cancel_handled(before: World, after: World, request: CancelCastAbility) -> bool {
    let s = request.source as int;
    if request.source < before.creatures@.len() {
        &&& after.obstacles == before.obstacles
        &&& after.regen_elapsed == before.regen_elapsed
        &&& after.creatures@ == before.creatures@.update(
            s,
            Creature { cast_ability: None, ..before.creatures@[s] },
        )
    } else {
        after == before
    }
}

/// The global cooldown after `delta` milliseconds: it leaves when its timer finishes.
pub open spec fn global_cooldown_after(g: Option<AbilityGlobalCooldown>, delta: u64) -> Option<
    AbilityGlobalCooldown,
> {
    match g {
        Some(g) => if g.duration_timer.ticked(delta).is_finished() {
            None
        } else {
            Some(AbilityGlobalCooldown { duration_timer: g.duration_timer.ticked(delta) })
        },
        None => None,
    }
}

/// The regeneration pause after `delta` milliseconds: it leaves when its timer finishes.
pub open spec fn regen_cooldown_after(g: Option<RegenManaCooldown>, delta: u64) -> Option<
    RegenManaCooldown,
> {
    match g {
        Some(g) => if g.duration_timer.ticked(delta).is_finished() {
            None
        } else {
            Some(RegenManaCooldown { duration_timer: g.duration_timer.ticked(delta) })
        },
        None => None,
    }
}

/// Creature `after` is `before` with its cooldowns and regeneration pause aged by `delta`.
pub open spec fn cooldowns_expired(before: Creature, after: Creature, delta: u64) -> bool {
    &&& after == Creature {
        ability_global_cooldown: global_cooldown_after(before.ability_global_cooldown, delta),
        regen_mana_cooldown: regen_cooldown_after(before.regen_mana_cooldown, delta),
        ability_cooldowns: after.ability_cooldowns,
        ..before
    }
    &&& after.ability_cooldowns.instances@ == cooldowns_ticked(
        before.ability_cooldowns.instances@,
        delta,
    )
}

/// The cast of `c` completes within the next `delta` milliseconds.
pub open spec fn completes(c: Creature, delta: u64) -> bool {
    match c.cast_ability {
        Some(cast) => !c.changing_position && cast.duration_timer.ticked(delta).is_finished(),
        None => false,
    }
}

/// Creature `after` is `before` with its cast advanced by `delta`: a moving caster loses
/// its cast; a cast that completes is dropped and resolved; another one ages.
pub open spec fn cast_advanced(before: Creature, after: Creature, delta: u64) -> bool {
    match before.cast_ability {
        None => after == before,
        Some(cast) => if before.changing_position {
            after == Creature { cast_ability: None, ..before }
        } else if cast.duration_timer.ticked(delta).is_finished() {
            resolved_by(Creature { cast_ability: None, ..before }, after, cast.ability)
        } else {
            after == Creature {
                cast_ability: Some(
                    CastAbility { duration_timer: cast.duration_timer.ticked(delta), ..cast },
                ),
                ..before
            }
        },
    }
}

/// Effect requests of the casts that complete, for the first `k` creatures, in order.
pub open spec fn cast_events(creatures: Seq<Creature>, obstacles: Seq<Vec2>, delta: u64, k: int) -> Seq<
    PerformEffect,
>
    decreases k,
{
    if k <= 0 {
        seq![]
    } else {
        let prev = cast_events(creatures, obstacles, delta, k - 1);
        let c = creatures[k - 1];
        if completes(c, delta) {
            prev + resolution_events(
                positions(creatures),
                obstacles,
                (k - 1) as usize,
                c.cast_ability.unwrap().ability,
                c.cast_ability.unwrap().target,
            )
        } else {
            prev
        }
    }
}

/// Critical chance of `source`; a missing source never strikes critically.
pub open spec fn source_chance(creatures: Seq<Creature>, source: usize) -> u16 {
    if source < creatures.len() {
        creatures[source as int].critical.chance
    } else {
        0
    }
}

/// `after` is `before` once `request` was applied with base `points` and critical roll
/// `roll`, `r` being the notification; a missing target makes it a no-op.
pub open spec fn momentary_applied(
    before: World,
    after: World,
    request: PerformMomentaryEffect,
    points: u16,
    roll: u16,
    r: Option<MomentaryEffectPerformed>,
) -> bool {
    let t = request.target as int;
    let c = before.creatures@[t];
    let p = performed(
        request.effect,
        points,
        is_critical_roll(source_chance(before.creatures@, request.source), roll),
    );
    if request.target >= before.creatures@.len() {
        r.is_none() && after == before
    } else {
        &&& r == Some(MomentaryEffectPerformed { entity: request.target, performed_momentary_effect: p })
        &&& after.obstacles == before.obstacles
        &&& after.regen_elapsed == before.regen_elapsed
        &&& after.creatures@ == before.creatures@.update(
            t,
            Creature { health: health_after(c.health, p), ..c },
        )
    }
}

/// Some base within the bounds of the effect and some critical roll give `after` and `r`.
pub open spec fn momentary_performed(
    before: World,
    after: World,
    request: PerformMomentaryEffect,
    r: Option<MomentaryEffectPerformed>,
) -> bool {
    exists|points: u16, roll: u16|
        #![trigger momentary_applied(before, after, request, points, roll, r)]
        point_bounds(request.effect).0 <= points <= point_bounds(request.effect).1 && roll
            < CRITICAL_SCALE && momentary_applied(before, after, request, points, roll, r)
}

/// `after` is `before` once effect request `e` was handled, `r` being the notification
/// of a momentary effect applied at once.
pub open spec fn effect_performed(
    before: World,
    after: World,
    e: PerformEffect,
    r: Option<MomentaryEffectPerformed>,
) -> bool {
    let t = e.target as int;
    let c = before.creatures@[t];
    let d = after.creatures@[t];
    if e.target >= before.creatures@.len() {
        r.is_none() && after == before
    } else {
        match e.effect {
            Effect::Momentary(m, MomentaryEffectSchedule::Once) => momentary_performed(
                before,
                after,
                PerformMomentaryEffect { effect: m, source: e.source, target: e.target },
                r,
            ),
            Effect::Momentary(m, MomentaryEffectSchedule::Periodic(interval, duration)) => {
                &&& r.is_none()
                &&& after.obstacles == before.obstacles
                &&& after.regen_elapsed == before.regen_elapsed
                &&& after.creatures@ == before.creatures@.update(t, d)
                &&& d == Creature { periodic_momentary_effects: d.periodic_momentary_effects, ..c }
                &&& d.periodic_momentary_effects.instances@
                    == c.periodic_momentary_effects.instances@.push(
                    PeriodicMomentaryEffectInstance {
                        effect: m,
                        interval_timer: Timer { duration: interval, elapsed: 0 },
                        duration_timer: Timer { duration, elapsed: 0 },
                        source: e.source,
                    },
                )
            },
            Effect::Lasting(l, duration) => {
                &&& r.is_none()
                &&& after.obstacles == before.obstacles
                &&& after.regen_elapsed == before.regen_elapsed
                &&& after.creatures@ == before.creatures@.update(t, d)
                &&& d == Creature { lasting_effects: d.lasting_effects, ..c }
                &&& d.lasting_effects.instances@ == c.lasting_effects.instances@.push(
                    LastingEffectInstance {
                        effect: l,
                        duration_timer: Timer { duration, elapsed: 0 },
                        source: e.source,
                    },
                )
            },
        }
    }
}

/// Regeneration steps completed when `delta` milliseconds follow `elapsed`.
pub open spec fn regen_steps(elapsed: u64, delta: u64) -> nat {
    ((elapsed + delta) / (REGEN_MANA_INTERVAL as int)) as nat
}

/// Creature `after` is `before` after `steps` regeneration steps, which only a creature
/// neither casting nor in its regeneration pause takes.
pub open spec fn mana_regenerated(before: Creature, after: Creature, steps: nat) -> bool {
    if before.cast_ability.is_none() && before.regen_mana_cooldown.is_none() {
        after == Creature { mana: before.mana.regenerated(steps), ..before }
    } else {
        after == before
    }
}

/// Creature `after` is `before` with its lasting and periodic effects aged by `delta`.
pub open spec fn effects_aged(before: Creature, after: Creature, delta: u64) -> bool {
    &&& after == Creature {
        lasting_effects: after.lasting_effects,
        periodic_momentary_effects: after.periodic_momentary_effects,
        ..before
    }
    &&& after.lasting_effects.instances@ == lasting_ticked(before.lasting_effects.instances@, delta)
    &&& after.periodic_momentary_effects.instances@ == periodic_ticked(
        before.periodic_momentary_effects.instances@,
        delta,
    )
}

/// Momentary effects that periodic instances apply, for the first `k` creatures, in order.
pub open spec fn aging_events(creatures: Seq<Creature>, delta: u64, k: int) -> Seq<
    PerformMomentaryEffect,
>
    decreases k,
{
    if k <= 0 {
        seq![]
    } else {
        aging_events(creatures, delta, k - 1) + periodic_fired(
            creatures[k - 1].periodic_momentary_effects.instances@,
            delta,
            (k - 1) as usize,
        )
    }
}

/// A tile-sized box at `a` overlaps, with positive area, one at `b`.
pub open spec fn boxes_collide(a: Vec2, b: Vec2) -> bool {
    -TILE_SIZE < b.x - a.x < TILE_SIZE && -TILE_SIZE < b.y - a.y < TILE_SIZE
}

/// A creature at `p` would overlap some obstacle.
pub open spec fn collides(p: Vec2, obstacles: Seq<Vec2>) -> bool {
    exists|i: int| 0 <= i < obstacles.len() && #[trigger] boxes_collide(p, obstacles[i])
}

/// Where a creature at `p` ends after trying `delta`: first along x, then along y, each
/// step taken only when it leads to no overlap; and whether some step was taken.
pub open spec fn moved(p: Vec2, delta: Vec2, obstacles: Seq<Vec2>) -> (Vec2, bool) {
    let px = Vec2 { x: (p.x + delta.x) as i32, y: p.y };
    let first = !collides(px, obstacles);
    let q = if first {
        px
    } else {
        p
    };
    let py = Vec2 { x: q.x, y: (q.y + delta.y) as i32 };
    let second = !collides(py, obstacles);
    (if second {
        py
    } else {
        q
    }, first || second)
}

/// Every creature of `after` relates to the one of `before` at the same index by `rel`;
/// the obstacles and the regeneration clock stay.
pub open spec fn each_creature(
    before: World,
    after: World,
    rel: spec_fn(Creature, Creature) -> bool,
) -> bool {
    &&& after.obstacles == before.obstacles
    &&& after.creatures@.len() == before.creatures@.len()
    &&& forall|i: int|
        0 <= i < before.creatures@.len() ==> #[trigger] rel(before.creatures@[i], after.creatures@[i])
}

impl World {
    pub open spec fn wf(self) -> bool {
        forall|i: int| 0 <= i < self.creatures@.len() ==> (#[trigger] self.creatures@[i]).wf()
    }

    /// An empty world with the given obstacle tiles (their centres).
    pub fn new(obstacles: Vec<Vec2>) -> (r: World)
        ensures
            r.wf(),
            r.creatures@.len() == 0,
            r.obstacles@ == obstacles@,
            r.regen_elapsed == 0,
    {
        World { creatures: Vec::new(), obstacles, regen_elapsed: 0 }
    }

    /// Adds a creature; returns its index.
    pub fn spawn(&mut self, creature: Creature) -> (r: usize)
        requires
            old(self).wf(),
            creature.wf(),
        ensures
            final(self).wf(),
            r == old(self).creatures@.len(),
            final(self).creatures@ == old(self).creatures@.push(creature),
            final(self).obstacles == old(self).obstacles,
            final(self).regen_elapsed == old(self).regen_elapsed,
    {
        let r = self.creatures.len();
        self.creatures.push(creature);
        r
    }

    /// Checks an attempt against the state of the world, without changing it.
    pub fn check_attempt(&self, request: &TryAbility) -> (r: Result<(), AbilityError>)
        requires
            request.source < self.creatures@.len(),
        ensures
            r == attempt_check(*self, *request),
    {
        let c = &self.creatures[request.source];
        let a = &request.ability;
        if c.cast_ability.is_some() {
            return Err(AbilityError::AlreadyCasting);
        }
        if c.lasting_effects.is_silenced() {
            return Err(AbilityError::Silenced);
        }
        if c.changing_position && a.cast_duration > 0 {
            return Err(AbilityError::InterruptedByMovement);
        }
        if c.ability_cooldowns.contains(a.id) {
            return Err(AbilityError::OnAbilityCooldown);
        }
        if c.ability_global_cooldown.is_some() {
            return Err(AbilityError::OnGlobalCooldown);
        }
        if a.mana_points > c.mana.points {
            return Err(AbilityError::InsufficientMana);
        }
        if a.requires_target() {
            let t = match request.target {
                Some(t) => t,
                None => return Err(AbilityError::NoTarget),
            };
            if t >= self.creatures.len() {
                return Err(AbilityError::NoTarget);
            }
            if t != request.source {
                match verify_target_position(
                    c.position,
                    self.creatures[t].position,
                    a.range,
                    &self.obstacles,
                ) {
                    Err(TargetPositionError::Range) => return Err(AbilityError::OutOfRange),
                    Err(TargetPositionError::Sight) => return Err(AbilityError::NoLineOfSight),
                    Ok(_) => {},
                }
            }
        }
        Ok(())
    }

    fn area_events_of(&self, source: usize, effect: Effect, range: u32) -> (r: Vec<PerformEffect>)
        requires
            source < self.creatures@.len(),
        ensures
            r@ == area_events(
                positions(self.creatures@),
                self.obstacles@,
                source,
                effect,
                range,
                self.creatures@.len() as int,
            ),
    {
        let ghost ps = positions(self.creatures@);
        let mut events: Vec<PerformEffect> = Vec::new();
        let mut i: usize = 0;
        while i < self.creatures.len()
            invariant
                i <= self.creatures@.len(),
                source < self.creatures@.len(),
                ps == positions(self.creatures@),
                events@ == area_events(ps, self.obstacles@, source, effect, range, i as int),
            decreases self.creatures@.len() - i,
        {
            if i != source {
                let check = verify_target_position(
                    self.creatures[source].position,
                    self.creatures[i].position,
                    range,
                    &self.obstacles,
                );
                if check.is_ok() {
                    events.push(PerformEffect { effect, source, target: i });
                }
            }
            i = i + 1;
        }
        events
    }

    fn effect_events_of(
        &self,
        source: usize,
        effect: (Effect, AbilityTargetMode),
        range: u32,
        target: Option<usize>,
    ) -> (r: Vec<PerformEffect>)
        requires
            source < self.creatures@.len(),
        ensures
            r@ == effect_events(
                positions(self.creatures@),
                self.obstacles@,
                source,
                effect,
                range,
                target,
            ),
    {
        match effect.1 {
            AbilityTargetMode::Single => {
                let mut events: Vec<PerformEffect> = Vec::new();
                if let Some(t) = target {
                    if t < self.creatures.len() {
                        events.push(PerformEffect { effect: effect.0, source, target: t });
                    }
                }
                events
            },
            AbilityTargetMode::Area => self.area_events_of(source, effect.0, range),
        }
    }

    /// Effect requests of `ability` cast by `source` on `target`.
    pub fn resolution_events_of(&self, source: usize, ability: &Ability, target: Option<usize>) -> (r:
        Vec<PerformEffect>)
        requires
            source < self.creatures@.len(),
        ensures
            r@ == resolution_events(
                positions(self.creatures@),
                self.obstacles@,
                source,
                *ability,
                target,
            ),
    {
        let mut events = self.effect_events_of(source, ability.effect, ability.range, target);
        if let Some(e) = ability.secondary_effect {
            let mut more = self.effect_events_of(source, e, ability.range, target);
            events.append(&mut more);
        }
        events
    }

    /// Pays for and starts the cooldowns of `ability` on creature `source`.
    fn pay_for(&mut self, source: usize, ability: &Ability)
        requires
            source < old(self).creatures@.len(),
            ability.mana_points <= old(self).creatures@[source as int].mana.points,
        ensures
            final(self).creatures@ == old(self).creatures@.update(
                source as int,
                final(self).creatures@[source as int],
            ),
            resolved_by(old(self).creatures@[source as int], final(self).creatures@[source as int], *ability),
            final(self).obstacles == old(self).obstacles,
            final(self).regen_elapsed == old(self).regen_elapsed,
    {
        let c = &mut self.creatures[source];
        c.mana.spend(ability.mana_points);
        c.regen_mana_cooldown = Some(RegenManaCooldown::new());
        if ability.cooldown_duration > 0 {
            c.ability_cooldowns.push(*ability);
        }
    }

    /// Handles an attempt by `request.source` to use `request.ability`.
    pub fn try_ability(&mut self, request: &TryAbility) -> (r: Result<Vec<PerformEffect>, AbilityError>)
        requires
            old(self).wf(),
            request.source < old(self).creatures@.len(),
            request.ability.wf(),
        ensures
            final(self).wf(),
            attempt_handled(
                *old(self),
                *final(self),
                *request,
                match r {
                    Ok(v) => Ok(v@),
                    Err(e) => Err(e),
                },
            ),
    {
        match self.check_attempt(request) {
            Err(e) => return Err(e),
            Ok(_) => {},
        }
        let s = request.source;
        let events = if request.ability.cast_duration > 0 {
            Vec::new()
        } else {
            self.resolution_events_of(s, &request.ability, request.target)
        };
        self.creatures[s].ability_global_cooldown = Some(AbilityGlobalCooldown::default());
        if request.ability.cast_duration > 0 {
            self.creatures[s].cast_ability = Some(CastAbility::new(request.ability, request.target));
        } else {
            self.pay_for(s, &request.ability);
        }
        proof {
            assert(self.creatures@ =~= old(self).creatures@.update(s as int, self.creatures@[s as int]));
            assert forall|i: int| 0 <= i < self.creatures@.len() implies (
            #[trigger] self.creatures@[i]).wf() by {
                if i != s {
                    assert(self.creatures@[i] == old(self).creatures@[i]);
                }
            }
        }
        Ok(events)
    }

    /// Drops the cast in progress of `request.source`, if any.
    pub fn cancel_cast_ability(&mut self, request: &CancelCastAbility)
        requires
            old(self).wf(),
        ensures
            final(self).wf(),
            cancel_handled(*old(self), *final(self), *request),
    {
        if request.source < self.creatures.len() {
            self.creatures[request.source].cast_ability = None;
            proof {
                assert(self.creatures@ =~= old(self).creatures@.update(
                    request.source as int,
                    self.creatures@[request.source as int],
                ));
                assert forall|i: int| 0 <= i < self.creatures@.len() implies (
                #[trigger] self.creatures@[i]).wf() by {
                    if i != request.source {
                        assert(self.creatures@[i] == old(self).creatures@[i]);
                    }
                }
            }
        }
    }

    /// Ages every cooldown and regeneration pause by `delta` milliseconds.
    pub fn expire_cooldowns(&mut self, delta: u64)
        requires
            old(self).wf(),
        ensures
            final(self).wf(),
            final(self).regen_elapsed == old(self).regen_elapsed,
            each_creature(*old(self), *final(self), |b: Creature, a: Creature| cooldowns_expired(b, a, delta)),
    {
        let ghost before = *old(self);
        let mut i: usize = 0;
        while i < self.creatures.len()
            invariant
                i <= self.creatures@.len(),
                self.creatures@.len() == before.creatures@.len(),
                self.obstacles == before.obstacles,
                self.regen_elapsed == before.regen_elapsed,
                before.wf(),
                forall|j: int| 0 <= j < i ==> cooldowns_expired(#[trigger] before.creatures@[j], self.creatures@[j], delta),
                forall|j: int| i <= j < self.creatures@.len() ==> #[trigger] self.creatures@[j] == before.creatures@[j],
                forall|j: int| 0 <= j < i ==> (#[trigger] self.creatures@[j]).wf(),
            decreases self.creatures@.len() - i,
        {
            let c = &mut self.creatures[i];
            if let Some(g) = c.ability_global_cooldown {
                let mut t = g.duration_timer;
                t.tick(delta);
                c.ability_global_cooldown = if t.finished() {
                    None
                } else {
                    Some(AbilityGlobalCooldown { duration_timer: t })
                };
            }
            if let Some(g) = c.regen_mana_cooldown {
                let mut t = g.duration_timer;
                t.tick(delta);
                c.regen_mana_cooldown = if t.finished() {
                    None
                } else {
                    Some(RegenManaCooldown { duration_timer: t })
                };
            }
            c.ability_cooldowns.tick(delta);
            assert(before.creatures@[i as int].wf());
            i = i + 1;
        }
    }

    /// Advances every cast in progress by `delta` milliseconds; returns the effect
    /// requests of the casts that complete.
    pub fn cast_abilities(&mut self, delta: u64) -> (r: Vec<PerformEffect>)
        requires
            old(self).wf(),
        ensures
            final(self).wf(),
            final(self).regen_elapsed == old(self).regen_elapsed,
            each_creature(*old(self), *final(self), |b: Creature, a: Creature| cast_advanced(b, a, delta)),
            r@ == cast_events(old(self).creatures@, old(self).obstacles@, delta, old(self).creatures@.len() as int),
    {
        let ghost before = *old(self);
        let mut events: Vec<PerformEffect> = Vec::new();
        let mut i: usize = 0;
        while i < self.creatures.len()
            invariant
                i <= self.creatures@.len(),
                self.creatures@.len() == before.creatures@.len(),
                self.obstacles == before.obstacles,
                self.regen_elapsed == before.regen_elapsed,
                before.wf(),
                positions(self.creatures@) == positions(before.creatures@),
                events@ == cast_events(before.creatures@, before.obstacles@, delta, i as int),
                forall|j: int| 0 <= j < i ==> cast_advanced(#[trigger] before.creatures@[j], self.creatures@[j], delta),
                forall|j: int| i <= j < self.creatures@.len() ==> #[trigger] self.creatures@[j] == before.creatures@[j],
                forall|j: int| 0 <= j < i ==> (#[trigger] self.creatures@[j]).wf(),
            decreases self.creatures@.len() - i,
        {
            let ghost mid = self.creatures@;
            assert(before.creatures@[i as int].wf());
            if let Some(cast) = self.creatures[i].cast_ability {
                if self.creatures[i].changing_position {
                    self.creatures[i].cast_ability = None;
                } else {
                    let mut timer = cast.duration_timer;
                    timer.tick(delta);
                    if timer.finished() {
                        self.creatures[i].cast_ability = None;
                        assert(positions(self.creatures@) =~= positions(before.creatures@));
                        let mut more = self.resolution_events_of(i, &cast.ability, cast.target);
                        self.pay_for(i, &cast.ability);
                        events.append(&mut more);
                    } else {
                        self.creatures[i].cast_ability = Some(CastAbility { duration_timer: timer, ..cast });
                    }
                }
            }
            proof {
                assert(self.creatures@ =~= mid.update(i as int, self.creatures@[i as int]));
                assert(positions(self.creatures@) =~= positions(before.creatures@));
            }
            i = i + 1;
        }
        events
    }

    /// Applies `request` with base `points` and critical roll `roll`.
    pub fn apply_momentary_effect(
        &mut self,
        request: &PerformMomentaryEffect,
        points: u16,
        roll: u16,
    ) -> (r: Option<MomentaryEffectPerformed>)
        requires
            old(self).wf(),
        ensures
            final(self).wf(),
            momentary_applied(*old(self), *final(self), *request, points, roll, r),
    {
        if request.target >= self.creatures.len() {
            return None;
        }
        let chance = if request.source < self.creatures.len() {
            self.creatures[request.source].critical.chance
        } else {
            0
        };
        let p = resolve_momentary(request.effect, points, chance, roll);
        let t = request.target;
        apply_performed(&mut self.creatures[t].health, p);
        proof {
            assert(self.creatures@ =~= old(self).creatures@.update(t as int, self.creatures@[t as int]));
            assert forall|i: int| 0 <= i < self.creatures@.len() implies (
            #[trigger] self.creatures@[i]).wf() by {
                if i != t {
                    assert(self.creatures@[i] == old(self).creatures@[i]);
                } else {
                    assert(old(self).creatures@[i].wf());
                }
            }
        }
        Some(MomentaryEffectPerformed { entity: t, performed_momentary_effect: p })
    }

    /// Applies `request` with a base drawn between the effect's bounds and a fresh
    /// critical roll against the source's chance.
    pub fn perform_momentary_effect(&mut self, request: &PerformMomentaryEffect) -> (r: Option<
        MomentaryEffectPerformed,
    >)
        requires
            old(self).wf(),
            point_bounds(request.effect).0 <= point_bounds(request.effect).1,
        ensures
            final(self).wf(),
            momentary_performed(*old(self), *final(self), *request, r),
    {
        let points = roll_points(request.effect);
        let roll = roll_critical();
        let r = self.apply_momentary_effect(request, points, roll);
        assert(momentary_applied(*old(self), *self, *request, points, roll, r));
        r
    }

    /// Handles one effect request: a one-off momentary effect applies at once; a
    /// periodic or lasting one is registered on the target.
    pub fn perform_effect(&mut self, e: &PerformEffect) -> (r: Option<MomentaryEffectPerformed>)
        requires
            old(self).wf(),
            effect_wf(e.effect),
        ensures
            final(self).wf(),
            effect_performed(*old(self), *final(self), *e, r),
    {
        if e.target >= self.creatures.len() {
            return None;
        }
        let t = e.target;
        match e.effect {
            Effect::Momentary(m, MomentaryEffectSchedule::Once) => {
                self.perform_momentary_effect(
                    &PerformMomentaryEffect { effect: m, source: e.source, target: t },
                )
            },
            Effect::Momentary(m, MomentaryEffectSchedule::Periodic(interval, duration)) => {
                let inst = PeriodicMomentaryEffectInstance {
                    effect: m,
                    interval_timer: Timer::new(interval),
                    duration_timer: Timer::new(duration),
                    source: e.source,
                };
                self.creatures[t].periodic_momentary_effects.push(inst);
                proof {
                    assert(self.creatures@ =~= old(self).creatures@.update(t as int, self.creatures@[t as int]));
                    assert forall|i: int| 0 <= i < self.creatures@.len() implies (
                    #[trigger] self.creatures@[i]).wf() by {
                        if i != t {
                            assert(self.creatures@[i] == old(self).creatures@[i]);
                        } else {
                            let s0 = old(self).creatures@[i].periodic_momentary_effects.instances@;
                            let s1 = self.creatures@[i].periodic_momentary_effects.instances@;
                            assert(old(self).creatures@[i].wf());
                            assert forall|k: int| 0 <= k < s1.len() implies point_bounds(
                                #[trigger] s1[k].effect,
                            ).0 <= point_bounds(s1[k].effect).1 by {
                                if k < s0.len() {
                                    assert(s1[k] == s0[k]);
                                }
                            }
                        }
                    }
                }
                None
            },
            Effect::Lasting(l, duration) => {
                let inst = LastingEffectInstance {
                    effect: l,
                    duration_timer: Timer::new(duration),
                    source: e.source,
                };
                self.creatures[t].lasting_effects.push(inst);
                proof {
                    assert(self.creatures@ =~= old(self).creatures@.update(t as int, self.creatures@[t as int]));
                    assert forall|i: int| 0 <= i < self.creatures@.len() implies (
                    #[trigger] self.creatures@[i]).wf() by {
                        if i != t {
                            assert(self.creatures@[i] == old(self).creatures@[i]);
                        } else {
                            assert(old(self).creatures@[i].wf());
                        }
                    }
                }
                None
            },
        }
    }

    /// Advances the regeneration clock by `delta` milliseconds and gives each creature
    /// that neither casts nor pauses the regeneration steps completed meanwhile.
    pub fn regen_mana(&mut self, delta: u64)
        requires
            old(self).wf(),
        ensures
            final(self).wf(),
            final(self).regen_elapsed == (old(self).regen_elapsed + delta) % (REGEN_MANA_INTERVAL as int),
            each_creature(
                *old(self),
                *final(self),
                |b: Creature, a: Creature| mana_regenerated(b, a, regen_steps(old(self).regen_elapsed, delta)),
            ),
    {
        let ghost before = *old(self);
        let total: u128 = self.regen_elapsed as u128 + delta as u128;
        let steps: u64 = (total / REGEN_MANA_INTERVAL as u128) as u64;
        self.regen_elapsed = (total % REGEN_MANA_INTERVAL as u128) as u64;
        let ghost n = regen_steps(before.regen_elapsed, delta);
        assert(steps == n);
        let mut i: usize = 0;
        while i < self.creatures.len()
            invariant
                i <= self.creatures@.len(),
                self.creatures@.len() == before.creatures@.len(),
                self.obstacles == before.obstacles,
                self.regen_elapsed == (before.regen_elapsed + delta) % (REGEN_MANA_INTERVAL as int),
                steps == n,
                before.wf(),
                forall|j: int| 0 <= j < i ==> mana_regenerated(#[trigger] before.creatures@[j], self.creatures@[j], n),
                forall|j: int| i <= j < self.creatures@.len() ==> #[trigger] self.creatures@[j] == before.creatures@[j],
                forall|j: int| 0 <= j < i ==> (#[trigger] self.creatures@[j]).wf(),
            decreases self.creatures@.len() - i,
        {
            assert(before.creatures@[i as int].wf());
            if self.creatures[i].cast_ability.is_none() && self.creatures[i].regen_mana_cooldown.is_none() {
                self.creatures[i].mana.regenerate(steps);
            }
            i = i + 1;
        }
    }

    /// Ages every lasting and periodic effect by `delta` milliseconds; returns the
    /// momentary effects that periodic instances apply.
    pub fn tick_effects(&mut self, delta: u64) -> (r: Vec<PerformMomentaryEffect>)
        requires
            old(self).wf(),
        ensures
            final(self).wf(),
            final(self).regen_elapsed == old(self).regen_elapsed,
            each_creature(*old(self), *final(self), |b: Creature, a: Creature| effects_aged(b, a, delta)),
            r@ == aging_events(old(self).creatures@, delta, old(self).creatures@.len() as int),
    {
        let ghost before = *old(self);
        let mut events: Vec<PerformMomentaryEffect> = Vec::new();
        let mut i: usize = 0;
        while i < self.creatures.len()
            invariant
                i <= self.creatures@.len(),
                self.creatures@.len() == before.creatures@.len(),
                self.obstacles == before.obstacles,
                self.regen_elapsed == before.regen_elapsed,
                before.wf(),
                events@ == aging_events(before.creatures@, delta, i as int),
                forall|j: int| 0 <= j < i ==> effects_aged(#[trigger] before.creatures@[j], self.creatures@[j], delta),
                forall|j: int| i <= j < self.creatures@.len() ==> #[trigger] self.creatures@[j] == before.creatures@[j],
                forall|j: int| 0 <= j < i ==> (#[trigger] self.creatures@[j]).wf(),
            decreases self.creatures@.len() - i,
        {
            assert(before.creatures@[i as int].wf());
            proof {
                lemma_periodic_ticked_wf(before.creatures@[i as int].periodic_momentary_effects.instances@, delta);
            }
            let c = &mut self.creatures[i];
            c.lasting_effects.tick(delta);
            let mut fired = c.periodic_momentary_effects.tick(delta, i);
            events.append(&mut fired);
            i = i + 1;
        }
        events
    }

    fn collides_at(&self, p: Vec2) -> (r: bool)
        ensures
            r == collides(p, self.obstacles@),
    {
        let mut i: usize = 0;
        while i < self.obstacles.len()
            invariant
                forall|j: int| 0 <= j < i ==> !#[trigger] boxes_collide(p, self.obstacles@[j]),
            decreases self.obstacles@.len() - i,
        {
            let o = self.obstacles[i];
            let dx = o.x as i64 - p.x as i64;
            let dy = o.y as i64 - p.y as i64;
            if -(TILE_SIZE as i64) < dx && dx < TILE_SIZE as i64 && -(TILE_SIZE as i64) < dy && dy
                < TILE_SIZE as i64 {
                assert(boxes_collide(p, self.obstacles@[i as int]));
                return true;
            }
            i = i + 1;
        }
        false
    }

    /// Moves creature `entity` by `delta` where obstacles allow, one axis at a time, and
    /// marks it as moving when it moved. Without `delta` it stands still.
    pub fn change_position(&mut self, entity: usize, delta: Option<Vec2>)
        requires
            old(self).wf(),
            entity < old(self).creatures@.len(),
            match delta {
                Some(d) => {
                    let p = old(self).creatures@[entity as int].position;
                    &&& i32::MIN <= p.x + d.x <= i32::MAX
                    &&& i32::MIN <= p.y + d.y <= i32::MAX
                },
                None => true,
            },
        ensures
            final(self).wf(),
            final(self).obstacles == old(self).obstacles,
            final(self).regen_elapsed == old(self).regen_elapsed,
            ({
                let c = old(self).creatures@[entity as int];
                final(self).creatures@ == old(self).creatures@.update(
                    entity as int,
                    match delta {
                        Some(d) => Creature {
                            position: moved(c.position, d, old(self).obstacles@).0,
                            changing_position: moved(c.position, d, old(self).obstacles@).1,
                            ..c
                        },
                        None => Creature { changing_position: false, ..c },
                    },
                )
            }),
    {
        let ghost before = *old(self);
        match delta {
            None => {
                self.creatures[entity].changing_position = false;
            },
            Some(d) => {
                let p = self.creatures[entity].position;
                let px = Vec2 { x: p.x + d.x, y: p.y };
                let first = !self.collides_at(px);
                let q = if first {
                    px
                } else {
                    p
                };
                let ghost y_sum = q.y + d.y;
                assert(i32::MIN <= y_sum <= i32::MAX);
                let py = Vec2 { x: q.x, y: q.y + d.y };
                let second = !self.collides_at(py);
                let target = if second {
                    py
                } else {
                    q
                };
                self.creatures[entity].position = target;
                self.creatures[entity].changing_position = first || second;
            },
        }
        proof {
            assert(self.creatures@ =~= before.creatures@.update(
                entity as int,
                self.creatures@[entity as int],
            ));
            assert forall|i: int| 0 <= i < self.creatures@.len() implies (
            #[trigger] self.creatures@[i]).wf() by {
                assert(before.creatures@[i].wf());
            }
        }
    }
}

} // verus!
