use crate::ability::{
    cooldowns_without, on_cooldown, sight_blocked, AbilityCooldownInstance, CancelCastAbility,
    TryAbility,
};
use crate::critical::{is_critical_roll, CRITICAL_SCALE};
use crate::effect::{
    has_silence, health_after, lasting_ticked, performed, LastingEffectInstance, MomentaryEffect,
};
use crate::geometry::in_range;
use crate::health::Health;
use crate::world::{
    attempt_check, attempt_handled, cancel_handled, cast_advanced, cooldowns_expired, global_cooldown_after, AbilityError,
    World,
};
use crate::ability::Ability;
use crate::effect::PerformEffect;
use crate::world::Creature;
use vstd::prelude::*;

verus! {

/// A rejected attempt changes nothing, mana included; an accepted instant attempt
/// takes exactly the ability's cost, which the caster had; an accepted timed attempt
/// takes nothing yet.
pub proof fn attempt_costs_exactly(
    before: World,
    after: World,
    request: TryAbility,
    r: Result<Seq<PerformEffect>, AbilityError>,
)
    requires
        request.source < before.creatures@.len(),
        attempt_handled(before, after, request, r),
    ensures
        r.is_err() ==> after == before,
        r.is_ok() && request.ability.cast_duration == 0 ==> {
            &&& request.ability.mana_points <= before.creatures@[request.source as int].mana.points
            &&& after.creatures@[request.source as int].mana.points
                == before.creatures@[request.source as int].mana.points - request.ability.mana_points
        },
        r.is_ok() && request.ability.cast_duration > 0 ==> after.creatures@[request.source as int].mana
            == before.creatures@[request.source as int].mana,
        forall|i: int|
            0 <= i < before.creatures@.len() && i != request.source ==> #[trigger] after.creatures@[i]
                == before.creatures@[i],
{
}

/// A cast that completes takes exactly its ability's cost, which a well-formed caster
/// has; a cast that is interrupted or still running takes nothing.
pub proof fn completed_cast_costs_exactly(before: Creature, after: Creature, delta: u64)
    requires
        before.wf(),
        before.cast_ability.is_some(),
        cast_advanced(before, after, delta),
    ensures
        ({
            let cost = before.cast_ability.unwrap().ability.mana_points;
            if !before.changing_position
                && before.cast_ability.unwrap().duration_timer.ticked(delta).is_finished() {
                cost <= before.mana.points && after.mana.points == before.mana.points - cost
            } else {
                after.mana == before.mana
            }
        }),
{
}

/// While the global cooldown is present every attempt of its creature fails; once it
/// is gone no attempt fails on its account.
pub proof fn global_cooldown_gates_attempts(w: World, request: TryAbility)
    requires
        request.source < w.creatures@.len(),
    ensures
        w.creatures@[request.source as int].ability_global_cooldown.is_some() ==> attempt_check(
            w,
            request,
        ).is_err(),
        w.creatures@[request.source as int].ability_global_cooldown.is_none() ==> attempt_check(
            w,
            request,
        ) != Err::<(), AbilityError>(AbilityError::OnGlobalCooldown),
{
}

/// The global cooldown leaves exactly when its timer reaches its duration.
pub proof fn global_cooldown_expires_on_time(before: Creature, after: Creature, delta: u64)
    requires
        before.ability_global_cooldown.is_some(),
        cooldowns_expired(before, after, delta),
    ensures
        ({
            let t = before.ability_global_cooldown.unwrap().duration_timer;
            after.ability_global_cooldown.is_none() <==> t.elapsed + delta >= t.duration
        }),
{
    assert(after.ability_global_cooldown == global_cooldown_after(
        before.ability_global_cooldown,
        delta,
    ));
}

proof fn lemma_without_keeps_other(s: Seq<AbilityCooldownInstance>, removed: u8, id: u8)
    requires
        removed != id,
    ensures
        on_cooldown(cooldowns_without(s, removed), id) == on_cooldown(s, id),
    decreases s.len(),
{
    if s.len() > 0 {
        let d = s.drop_last();
        let prev = cooldowns_without(d, removed);
        let w = cooldowns_without(s, removed);
        lemma_without_keeps_other(d, removed, id);
        assert forall|j: int| 0 <= j < prev.len() implies #[trigger] w[j] == prev[j] by {}
        assert forall|j: int| 0 <= j < d.len() implies #[trigger] d[j] == s[j] by {}
        if on_cooldown(s, id) {
            let i = choose|i: int| 0 <= i < s.len() && #[trigger] s[i].id == id;
            if i < s.len() - 1 {
                assert(d[i].id == id);
                let j = choose|j: int| 0 <= j < prev.len() && #[trigger] prev[j].id == id;
                assert(w[j].id == id);
            } else {
                assert(w[w.len() - 1].id == id);
            }
        }
        if on_cooldown(w, id) {
            let i = choose|i: int| 0 <= i < w.len() && #[trigger] w[i].id == id;
            if i < prev.len() {
                assert(prev[i].id == id);
                let j = choose|j: int| 0 <= j < d.len() && #[trigger] d[j].id == id;
                assert(s[j].id == id);
            } else {
                assert(s[s.len() - 1].id == id);
            }
        }
    }
}

/// Starting the cooldown of one ability leaves every other ability id as it was: on
/// cooldown exactly when it was before.
pub proof fn ability_cooldowns_are_independent(
    s: Seq<AbilityCooldownInstance>,
    started: Ability,
    id: u8,
)
    requires
        started.id != id,
    ensures
        on_cooldown(
            cooldowns_without(s, started.id).push(AbilityCooldownInstance::started(started)),
            id,
        ) == on_cooldown(s, id),
{
    let w = cooldowns_without(s, started.id);
    lemma_without_keeps_other(s, started.id, id);
    let p = w.push(AbilityCooldownInstance::started(started));
    if on_cooldown(p, id) {
        let i = choose|i: int| 0 <= i < p.len() && #[trigger] p[i].id == id;
        assert(i < w.len());
        assert(w[i].id == id);
    }
    if on_cooldown(w, id) {
        let i = choose|i: int| 0 <= i < w.len() && #[trigger] w[i].id == id;
        assert(p[i].id == id);
    }
}

/// An ability whose id is not on cooldown is never refused for an ability cooldown,
/// whatever other abilities are on cooldown.
pub proof fn other_cooldowns_do_not_block(w: World, request: TryAbility)
    requires
        request.source < w.creatures@.len(),
        !on_cooldown(w.creatures@[request.source as int].ability_cooldowns.instances@, request.ability.id),
    ensures
        attempt_check(w, request) != Err::<(), AbilityError>(AbilityError::OnAbilityCooldown),
{
}

/// A silenced creature's attempts all fail, whatever its resources; without silence no
/// attempt fails on that account.
pub proof fn silence_blocks_attempts(w: World, request: TryAbility)
    requires
        request.source < w.creatures@.len(),
    ensures
        has_silence(w.creatures@[request.source as int].lasting_effects.instances@) ==> attempt_check(
            w,
            request,
        ).is_err(),
        !has_silence(w.creatures@[request.source as int].lasting_effects.instances@) ==> attempt_check(
            w,
            request,
        ) != Err::<(), AbilityError>(AbilityError::Silenced),
{
}

/// Lasting effects that all run out within `delta` milliseconds are all gone after it,
/// silences included.
pub proof fn lasting_effects_expire(s: Seq<LastingEffectInstance>, delta: u64)
    requires
        forall|i: int| 0 <= i < s.len() ==> (#[trigger] s[i]).duration_timer.ticked(delta).is_finished(),
    ensures
        lasting_ticked(s, delta).len() == 0,
        !has_silence(lasting_ticked(s, delta)),
    decreases s.len(),
{
    if s.len() > 0 {
        assert forall|i: int| 0 <= i < s.drop_last().len() implies (
        #[trigger] s.drop_last()[i]).duration_timer.ticked(delta).is_finished() by {
            assert(s.drop_last()[i] == s[i]);
        }
        lasting_effects_expire(s.drop_last(), delta);
        assert(s[s.len() - 1].duration_timer.ticked(delta).is_finished());
    }
}

/// Movement refuses only timed abilities: an instant one is never refused for it, and a
/// timed one from a moving creature that is otherwise free to act is.
pub proof fn movement_refuses_only_timed_abilities(w: World, request: TryAbility)
    requires
        request.source < w.creatures@.len(),
    ensures
        request.ability.cast_duration == 0 ==> attempt_check(w, request) != Err::<(), AbilityError>(
            AbilityError::InterruptedByMovement,
        ),
        ({
            let c = w.creatures@[request.source as int];
            c.cast_ability.is_none() && !has_silence(c.lasting_effects.instances@)
                && c.changing_position && request.ability.cast_duration > 0
        }) ==> attempt_check(w, request) == Err::<(), AbilityError>(AbilityError::InterruptedByMovement),
{
}

/// Movement interrupts a cast in progress: it is dropped unresolved, and mana and
/// cooldowns stay as they were.
pub proof fn movement_interrupts_casts(before: Creature, after: Creature, delta: u64)
    requires
        before.cast_ability.is_some(),
        before.changing_position,
        cast_advanced(before, after, delta),
    ensures
        after.cast_ability.is_none(),
        after.mana == before.mana,
        after.ability_cooldowns == before.ability_cooldowns,
        after.regen_mana_cooldown == before.regen_mana_cooldown,
        after.health == before.health,
{
}

/// A damage effect of fixed base `points` takes exactly that many points, clamped at
/// zero, when the chance of a critical is zero, and exactly twice as many when it is
/// certain.
pub proof fn fixed_damage_is_exact(health: Health, points: u16, base: u16, chance: u16, roll: u16)
    requires
        points <= base <= points,
        roll < CRITICAL_SCALE,
    ensures
        chance == 0 ==> health_after(
            health,
            performed(MomentaryEffect::Damage(points, points), base, is_critical_roll(chance, roll)),
        ) == health.after_damage(points as u32),
        chance >= CRITICAL_SCALE ==> health_after(
            health,
            performed(MomentaryEffect::Damage(points, points), base, is_critical_roll(chance, roll)),
        ) == health.after_damage((2 * points) as u32),
{
}

/// An obstacle across the line to an otherwise valid single target, in range, refuses
/// the attempt for lack of sight.
pub proof fn obstacles_block_sight(w: World, request: TryAbility, target: usize)
    requires
        request.source < w.creatures@.len(),
        target < w.creatures@.len(),
        target != request.source,
        request.target == Some(target),
        request.ability.spec_requires_target(),
        ({
            let c = w.creatures@[request.source as int];
            &&& c.cast_ability.is_none()
            &&& !has_silence(c.lasting_effects.instances@)
            &&& !(c.changing_position && request.ability.cast_duration > 0)
            &&& !on_cooldown(c.ability_cooldowns.instances@, request.ability.id)
            &&& c.ability_global_cooldown.is_none()
            &&& request.ability.mana_points <= c.mana.points
            &&& in_range(c.position, w.creatures@[target as int].position, request.ability.range)
            &&& sight_blocked(c.position, w.creatures@[target as int].position, w.obstacles@)
        }),
    ensures
        attempt_check(w, request) == Err::<(), AbilityError>(AbilityError::NoLineOfSight),
{
}

/// Starting a timed cast and cancelling it before it completes leaves mana, ability
/// cooldowns, health and effects of every creature as they were before the attempt;
/// only the global cooldown that the attempt started remains.
pub proof fn cancelled_cast_changes_nothing(
    w0: World,
    w1: World,
    w2: World,
    request: TryAbility,
    r: Result<Seq<PerformEffect>, AbilityError>,
)
    requires
        request.source < w0.creatures@.len(),
        request.ability.cast_duration > 0,
        attempt_handled(w0, w1, request, r),
        r.is_ok(),
        cancel_handled(w1, w2, CancelCastAbility { source: request.source }),
    ensures
        w2.creatures@.len() == w0.creatures@.len(),
        forall|i: int|
            0 <= i < w0.creatures@.len() ==> {
                &&& (#[trigger] w2.creatures@[i]).mana == w0.creatures@[i].mana
                &&& w2.creatures@[i].health == w0.creatures@[i].health
                &&& w2.creatures@[i].ability_cooldowns == w0.creatures@[i].ability_cooldowns
                &&& w2.creatures@[i].cast_ability == w0.creatures@[i].cast_ability
                &&& w2.creatures@[i].regen_mana_cooldown == w0.creatures@[i].regen_mana_cooldown
                &&& w2.creatures@[i].lasting_effects == w0.creatures@[i].lasting_effects
                &&& w2.creatures@[i].periodic_momentary_effects == w0.creatures@[i].periodic_momentary_effects
            },
{
    assert forall|i: int| 0 <= i < w0.creatures@.len() implies {
        &&& (#[trigger] w2.creatures@[i]).mana == w0.creatures@[i].mana
        &&& w2.creatures@[i].health == w0.creatures@[i].health
        &&& w2.creatures@[i].ability_cooldowns == w0.creatures@[i].ability_cooldowns
        &&& w2.creatures@[i].cast_ability == w0.creatures@[i].cast_ability
        &&& w2.creatures@[i].regen_mana_cooldown == w0.creatures@[i].regen_mana_cooldown
        &&& w2.creatures@[i].lasting_effects == w0.creatures@[i].lasting_effects
        &&& w2.creatures@[i].periodic_momentary_effects == w0.creatures@[i].periodic_momentary_effects
    } by {
        if i != request.source {
            assert(w1.creatures@[i] == w0.creatures@[i]);
        }
    }
}

} // verus!
