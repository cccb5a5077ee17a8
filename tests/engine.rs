use bun::ability::{Ability, AbilityTargetMode, CancelCastAbility, TryAbility};
use bun::critical::CRITICAL_SCALE;
use bun::effect::{
    Effect, LastingEffect, MomentaryEffect, MomentaryEffectSchedule, PerformEffect,
    PerformedMomentaryEffect,
};
use bun::geometry::Vec2;
use bun::player::{blaze, fireball, silence};
use bun::tick::TickOutcome;
use bun::world::{AbilityError, Creature, World};

fn world_with(positions: &[(i32, i32)], obstacles: Vec<Vec2>) -> World {
    let mut w = World::new(obstacles);
    for &(x, y) in positions {
        let mut c = Creature::new(Vec2::new(x, y), 100, 100);
        c.critical.chance = 0;
        w.spawn(c);
    }
    w
}

fn ability(
    id: u8,
    mana_points: u16,
    cast_duration: u64,
    cooldown_duration: u64,
    range: u32,
    effect: Effect,
    mode: AbilityTargetMode,
) -> Ability {
    Ability {
        id,
        name: "Test",
        mana_points,
        cast_duration,
        cooldown_duration,
        range,
        effect: (effect, mode),
        secondary_effect: None,
    }
}

fn hit(points: u16) -> Effect {
    Effect::Momentary(MomentaryEffect::Damage(points, points), MomentaryEffectSchedule::Once)
}

fn attempt(w: &mut World, source: usize, a: Ability, target: Option<usize>) -> TickOutcome {
    w.tick(0, &vec![TryAbility { source, ability: a, target }], &vec![])
}

fn idle(w: &mut World, delta: u64) -> TickOutcome {
    w.tick(delta, &vec![], &vec![])
}

#[test]
fn instant_cast_deducts_exact_cost() {
    let mut w = world_with(&[(0, 0), (50, 0)], vec![]);
    let a = ability(7, 30, 0, 0, 100, hit(10), AbilityTargetMode::Single);
    let out = attempt(&mut w, 0, a, Some(1));
    assert_eq!(out.attempts, vec![Ok(())]);
    assert_eq!(w.creatures[0].mana.points, 70);
    assert_eq!(w.creatures[1].health.points, 90);
    assert!(w.creatures[0].regen_mana_cooldown.is_some());
    assert!(w.creatures[0].ability_global_cooldown.is_some());
}

#[test]
fn rejected_attempt_deducts_nothing() {
    let mut w = world_with(&[(0, 0), (50, 0)], vec![]);
    let a = ability(7, 130, 0, 0, 100, hit(10), AbilityTargetMode::Single);
    let out = attempt(&mut w, 0, a, Some(1));
    assert_eq!(out.attempts, vec![Err(AbilityError::InsufficientMana)]);
    assert_eq!(w.creatures[0].mana.points, 100);
    assert_eq!(w.creatures[1].health.points, 100);
    assert!(w.creatures[0].ability_global_cooldown.is_none());
}

#[test]
fn timed_cast_pays_on_completion() {
    let mut w = world_with(&[(0, 0), (50, 0)], vec![]);
    let a = ability(7, 30, 2000, 0, 100, hit(10), AbilityTargetMode::Single);
    assert_eq!(attempt(&mut w, 0, a, Some(1)).attempts, vec![Ok(())]);
    assert_eq!(w.creatures[0].mana.points, 100);
    idle(&mut w, 1000);
    assert_eq!(w.creatures[0].mana.points, 100);
    assert!(w.creatures[0].cast_ability.is_some());
    let out = idle(&mut w, 1000);
    assert_eq!(w.creatures[0].mana.points, 70);
    assert!(w.creatures[0].cast_ability.is_none());
    assert_eq!(w.creatures[1].health.points, 90);
    assert_eq!(out.performed.len(), 1);
    assert_eq!(out.performed[0].entity, 1);
    assert_eq!(out.performed[0].performed_momentary_effect, PerformedMomentaryEffect::Damage(10, false));
}

#[test]
fn global_cooldown_blocks_until_expiry() {
    let mut w = world_with(&[(0, 0), (50, 0)], vec![]);
    let a = ability(1, 0, 0, 0, 100, hit(1), AbilityTargetMode::Single);
    let b = ability(2, 0, 0, 0, 100, hit(1), AbilityTargetMode::Single);
    assert_eq!(attempt(&mut w, 0, a, Some(1)).attempts, vec![Ok(())]);
    assert_eq!(attempt(&mut w, 0, b, Some(1)).attempts, vec![Err(AbilityError::OnGlobalCooldown)]);
    idle(&mut w, 1499);
    assert_eq!(attempt(&mut w, 0, b, Some(1)).attempts, vec![Err(AbilityError::OnGlobalCooldown)]);
    let out = w.tick(1, &vec![TryAbility { source: 0, ability: b, target: Some(1) }], &vec![]);
    assert_eq!(out.attempts, vec![Ok(())]);
}

#[test]
fn ability_cooldowns_are_per_id() {
    let mut w = world_with(&[(0, 0), (50, 0)], vec![]);
    let a = ability(1, 0, 0, 10000, 100, hit(1), AbilityTargetMode::Single);
    let b = ability(2, 0, 0, 10000, 100, hit(1), AbilityTargetMode::Single);
    assert_eq!(attempt(&mut w, 0, b, Some(1)).attempts, vec![Ok(())]);
    idle(&mut w, 1500);
    assert_eq!(attempt(&mut w, 0, b, Some(1)).attempts, vec![Err(AbilityError::OnAbilityCooldown)]);
    assert_eq!(attempt(&mut w, 0, a, Some(1)).attempts, vec![Ok(())]);
    idle(&mut w, 8500);
    assert_eq!(attempt(&mut w, 0, b, Some(1)).attempts, vec![Ok(())]);
}

#[test]
fn silence_blocks_until_it_expires() {
    let mut w = world_with(&[(0, 0), (50, 0)], vec![]);
    assert_eq!(attempt(&mut w, 0, silence(), Some(1)).attempts, vec![Ok(())]);
    assert!(w.creatures[1].lasting_effects.is_silenced());
    let free = ability(4, 0, 0, 0, 100, hit(1), AbilityTargetMode::Single);
    assert_eq!(attempt(&mut w, 1, free, Some(0)).attempts, vec![Err(AbilityError::Silenced)]);
    idle(&mut w, 3999);
    assert_eq!(attempt(&mut w, 1, free, Some(0)).attempts, vec![Err(AbilityError::Silenced)]);
    idle(&mut w, 1);
    assert!(!w.creatures[1].lasting_effects.is_silenced());
    assert_eq!(attempt(&mut w, 1, free, Some(0)).attempts, vec![Ok(())]);
}

#[test]
fn movement_blocks_and_interrupts_only_timed_casts() {
    let mut w = world_with(&[(0, 0), (50, 0)], vec![]);
    let timed = ability(1, 10, 1000, 5000, 100, hit(5), AbilityTargetMode::Single);
    let instant = ability(2, 10, 0, 0, 100, hit(5), AbilityTargetMode::Single);
    w.creatures[0].changing_position = true;
    assert_eq!(attempt(&mut w, 0, timed, Some(1)).attempts, vec![Err(AbilityError::InterruptedByMovement)]);
    assert_eq!(attempt(&mut w, 0, instant, Some(1)).attempts, vec![Ok(())]);
    assert_eq!(w.creatures[1].health.points, 95);

    w.creatures[0].changing_position = false;
    idle(&mut w, 1500);
    assert_eq!(attempt(&mut w, 0, timed, Some(1)).attempts, vec![Ok(())]);
    let mana = w.creatures[0].mana.points;
    w.creatures[0].changing_position = true;
    idle(&mut w, 500);
    assert!(w.creatures[0].cast_ability.is_none());
    w.creatures[0].changing_position = false;
    idle(&mut w, 1000);
    assert_eq!(w.creatures[0].mana.points, mana);
    assert_eq!(w.creatures[1].health.points, 95);
    assert!(!w.creatures[0].ability_cooldowns.contains(1));
}

#[test]
fn fixed_damage_without_critical_takes_ten() {
    let mut w = world_with(&[(0, 0), (50, 0)], vec![]);
    w.creatures[1].health.points = 15;
    let a = ability(1, 0, 0, 0, 100, hit(10), AbilityTargetMode::Single);
    attempt(&mut w, 0, a, Some(1));
    assert_eq!(w.creatures[1].health.points, 5);
    idle(&mut w, 1500);
    attempt(&mut w, 0, a, Some(1));
    assert_eq!(w.creatures[1].health.points, 0);
}

#[test]
fn fixed_damage_with_certain_critical_takes_twenty() {
    let mut w = world_with(&[(0, 0), (50, 0)], vec![]);
    w.creatures[0].critical.chance = CRITICAL_SCALE;
    let a = ability(1, 0, 0, 0, 100, hit(10), AbilityTargetMode::Single);
    let out = attempt(&mut w, 0, a, Some(1));
    assert_eq!(w.creatures[1].health.points, 80);
    assert_eq!(out.performed[0].performed_momentary_effect, PerformedMomentaryEffect::Damage(20, true));
}

#[test]
fn fixed_damage_through_apply_is_exact() {
    let mut w = world_with(&[(0, 0), (50, 0)], vec![]);
    let request = bun::effect::PerformMomentaryEffect {
        effect: MomentaryEffect::Damage(10, 10),
        source: 0,
        target: 1,
    };
    w.apply_momentary_effect(&request, 10, 0);
    assert_eq!(w.creatures[1].health.points, 90);
    w.creatures[0].critical.chance = CRITICAL_SCALE;
    w.apply_momentary_effect(&request, 10, CRITICAL_SCALE - 1);
    assert_eq!(w.creatures[1].health.points, 70);
}

#[test]
fn periodic_effect_fires_four_times() {
    let mut w = world_with(&[(0, 0), (50, 0)], vec![]);
    let e = PerformEffect {
        effect: Effect::Momentary(MomentaryEffect::Damage(1, 1), MomentaryEffectSchedule::Periodic(3000, 12000)),
        source: 0,
        target: 1,
    };
    assert_eq!(w.perform_effect(&e), None);
    let mut fired_at = Vec::new();
    for t in 1..=20u64 {
        let out = idle(&mut w, 1000);
        for p in &out.performed {
            assert_eq!(p.entity, 1);
            fired_at.push(t);
        }
    }
    assert_eq!(fired_at, vec![3, 6, 9, 12]);
    assert_eq!(w.creatures[1].health.points, 96);
    assert!(w.creatures[1].periodic_momentary_effects.instances.is_empty());
}

#[test]
fn area_effect_reaches_only_creatures_in_range() {
    let mut w = world_with(&[(0, 0), (50, 0), (0, 90)], vec![]);
    let area = ability(1, 0, 0, 0, 80, hit(10), AbilityTargetMode::Area);
    let out = attempt(&mut w, 0, area, None);
    assert_eq!(out.attempts, vec![Ok(())]);
    assert_eq!(w.creatures[0].health.points, 100);
    assert_eq!(w.creatures[1].health.points, 90);
    assert_eq!(w.creatures[2].health.points, 100);
    assert_eq!(out.performed.len(), 1);
}

#[test]
fn blaze_skips_creatures_behind_walls() {
    let mut w = world_with(&[(0, 0), (60, 0), (0, 60)], vec![Vec2::new(30, 0)]);
    w.creatures[0].critical.chance = 0;
    let out = attempt(&mut w, 0, blaze(), None);
    assert_eq!(out.attempts, vec![Ok(())]);
    assert_eq!(w.creatures[1].health.points, 100);
    assert!(w.creatures[2].health.points <= 80 && w.creatures[2].health.points >= 70);
}

#[test]
fn obstacle_blocks_single_target() {
    let a = ability(1, 0, 0, 0, 200, hit(10), AbilityTargetMode::Single);
    let mut blocked = world_with(&[(0, 0), (100, 0)], vec![Vec2::new(50, 0)]);
    assert_eq!(attempt(&mut blocked, 0, a, Some(1)).attempts, vec![Err(AbilityError::NoLineOfSight)]);
    let mut clear = world_with(&[(0, 0), (100, 0)], vec![Vec2::new(50, 30)]);
    assert_eq!(attempt(&mut clear, 0, a, Some(1)).attempts, vec![Ok(())]);
}

#[test]
fn targeting_errors() {
    let a = ability(1, 0, 0, 0, 60, hit(10), AbilityTargetMode::Single);
    let mut w = world_with(&[(0, 0), (100, 0)], vec![]);
    assert_eq!(attempt(&mut w, 0, a, None).attempts, vec![Err(AbilityError::NoTarget)]);
    assert_eq!(attempt(&mut w, 0, a, Some(9)).attempts, vec![Err(AbilityError::NoTarget)]);
    assert_eq!(attempt(&mut w, 0, a, Some(1)).attempts, vec![Err(AbilityError::OutOfRange)]);
    assert_eq!(attempt(&mut w, 0, a, Some(0)).attempts, vec![Ok(())]);
    assert_eq!(w.creatures[0].health.points, 90);
}

#[test]
fn already_casting_is_refused() {
    let mut w = world_with(&[(0, 0), (50, 0)], vec![]);
    assert_eq!(attempt(&mut w, 0, fireball(), Some(1)).attempts, vec![Ok(())]);
    idle(&mut w, 1500);
    assert_eq!(attempt(&mut w, 0, fireball(), Some(1)).attempts, vec![Err(AbilityError::AlreadyCasting)]);
    let r = w.check_attempt(&TryAbility { source: 0, ability: fireball(), target: Some(1) });
    assert_eq!(r, Err(AbilityError::AlreadyCasting));
}

#[test]
fn cancelled_cast_leaves_no_trace() {
    let mut w = world_with(&[(0, 0), (50, 0)], vec![]);
    let a = ability(3, 25, 2000, 9000, 100, hit(10), AbilityTargetMode::Single);
    let mana = w.creatures[0].mana;
    let health = w.creatures[1].health;
    assert_eq!(attempt(&mut w, 0, a, Some(1)).attempts, vec![Ok(())]);
    idle(&mut w, 1000);
    w.tick(500, &vec![], &vec![CancelCastAbility { source: 0 }]);
    idle(&mut w, 5000);
    assert!(w.creatures[0].cast_ability.is_none());
    assert_eq!(w.creatures[0].mana, mana);
    assert_eq!(w.creatures[1].health, health);
    assert!(w.creatures[0].ability_cooldowns.instances.is_empty());
}

#[test]
fn mana_regenerates_after_the_pause() {
    let mut w = world_with(&[(0, 0), (50, 0)], vec![]);
    let a = ability(1, 10, 0, 0, 100, hit(1), AbilityTargetMode::Single);
    attempt(&mut w, 0, a, Some(1));
    assert_eq!(w.creatures[0].mana.points, 90);
    idle(&mut w, 4999);
    assert_eq!(w.creatures[0].mana.points, 90);
    idle(&mut w, 1);
    assert_eq!(w.creatures[0].mana.points, 91);
    idle(&mut w, 500);
    assert_eq!(w.creatures[0].mana.points, 92);
    idle(&mut w, 2000);
    assert_eq!(w.creatures[0].mana.points, 96);
    idle(&mut w, 100000);
    assert_eq!(w.creatures[0].mana.points, 100);
}

#[test]
fn heal_and_lasting_effects_register() {
    let mut w = world_with(&[(0, 0), (50, 0)], vec![]);
    w.creatures[1].health.points = 10;
    let heal = Effect::Momentary(MomentaryEffect::Heal(500, 500), MomentaryEffectSchedule::Once);
    let r = w.perform_effect(&PerformEffect { effect: heal, source: 0, target: 1 });
    assert_eq!(r.map(|n| n.performed_momentary_effect), Some(PerformedMomentaryEffect::Heal(500, false)));
    assert_eq!(w.creatures[1].health.points, 100);
    let s = PerformEffect { effect: Effect::Lasting(LastingEffect::Silence, 100), source: 0, target: 1 };
    assert_eq!(w.perform_effect(&s), None);
    assert_eq!(w.creatures[1].lasting_effects.instances.len(), 1);
    assert_eq!(w.perform_effect(&PerformEffect { effect: heal, source: 0, target: 5 }), None);
}

#[test]
fn movement_stops_at_obstacles_axis_by_axis() {
    let mut w = world_with(&[(0, 0)], vec![Vec2::new(20, 0)]);
    w.change_position(0, Some(Vec2::new(3, 0)));
    assert_eq!(w.creatures[0].position, Vec2::new(3, 0));
    assert!(w.creatures[0].changing_position);
    // Moving right would overlap the obstacle; moving up is free.
    w.change_position(0, Some(Vec2::new(5, 20)));
    assert_eq!(w.creatures[0].position, Vec2::new(3, 20));
    assert!(w.creatures[0].changing_position);
    w.change_position(0, None);
    assert!(!w.creatures[0].changing_position);
    let mut boxed = world_with(&[(0, 0)], vec![Vec2::new(16, 0), Vec2::new(0, 16)]);
    boxed.change_position(0, Some(Vec2::new(1, 1)));
    assert_eq!(boxed.creatures[0].position, Vec2::new(0, 0));
    assert!(!boxed.creatures[0].changing_position);
}

#[test]
fn progress_for_display() {
    let mut w = world_with(&[(0, 0), (50, 0)], vec![]);
    attempt(&mut w, 0, fireball(), Some(1));
    idle(&mut w, 1000);
    let cast = w.creatures[0].cast_ability.unwrap();
    assert_eq!(cast.progress(), (1000, 2500));
    assert_eq!(w.creatures[0].mana.progress(), (100, 100));
    assert_eq!(w.creatures[1].health.progress(), (100, 100));
}
