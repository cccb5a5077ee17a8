use bun::ability::{verify_target_position, Ability, AbilityCooldowns, AbilityTargetMode, TargetPositionError};
use bun::critical::{Critical, CRITICAL_CHANCE, CRITICAL_SCALE};
use bun::effect::{
    apply_performed, resolve_momentary, roll_critical, roll_points, Effect, MomentaryEffect,
    MomentaryEffectSchedule, PerformedMomentaryEffect,
};
use bun::geometry::Vec2;
use bun::health::Health;
use bun::level::{level_result, new_level, LevelResult};
use bun::mana::{Mana, RegenManaCooldown, REGEN_MANA_COOLDOWN_DURATION};
use bun::player::{blaze, closest_creature, fireball, lesser_heal, silence};
use bun::sprite::Sprite;
use bun::timer::Timer;
use bun::zone::{Tile, Zone};

fn plain_ability(id: u8, cooldown_duration: u64) -> Ability {
    Ability {
        id,
        name: "Test",
        mana_points: 0,
        cast_duration: 0,
        cooldown_duration,
        range: 100,
        effect: (
            Effect::Momentary(MomentaryEffect::Damage(1, 1), MomentaryEffectSchedule::Once),
            AbilityTargetMode::Area,
        ),
        secondary_effect: None,
    }
}

#[test]
fn health_starts_full_and_clamps() {
    let mut h = Health::new(50);
    assert_eq!((h.points, h.max_points), (50, 50));
    h.lose(20);
    assert_eq!(h.points, 30);
    h.gain(5);
    assert_eq!(h.points, 35);
    h.gain(100);
    assert_eq!(h.points, 50);
    h.lose(70);
    assert_eq!(h.points, 0);
    assert!(h.is_dead());
}

#[test]
fn mana_regenerates_up_to_max() {
    let mut m = Mana::new(10);
    assert_eq!(m.regen_points, 1);
    m.spend(7);
    assert_eq!(m.points, 3);
    m.regenerate(4);
    assert_eq!(m.points, 7);
    m.regenerate(100);
    assert_eq!(m.points, 10);
    let c = RegenManaCooldown::new();
    assert_eq!(c.duration_timer.duration, REGEN_MANA_COOLDOWN_DURATION);
    assert_eq!(c.duration_timer.elapsed, 0);
}

#[test]
fn timer_once_and_repeating() {
    let mut t = Timer::new(1500);
    t.tick(1000);
    assert!(!t.finished());
    assert_eq!(t.remaining(), 500);
    t.tick(1000);
    assert!(t.finished());
    assert_eq!(t.elapsed, 1500);

    let mut r = Timer::new(3000);
    assert!(!r.tick_repeating(2000));
    assert!(r.tick_repeating(2000));
    assert_eq!(r.elapsed, 1000);
    assert!(r.tick_repeating(8000));
    assert_eq!(r.elapsed, 0);
}

#[test]
fn cooldowns_tick_replace_and_expire() {
    let mut c = AbilityCooldowns::new();
    c.push(plain_ability(1, 1000));
    c.push(plain_ability(2, 3000));
    assert!(c.contains(1) && c.contains(2) && !c.contains(3));
    c.tick(1000);
    assert!(!c.contains(1));
    assert!(c.contains(2));
    c.push(plain_ability(2, 5000));
    assert_eq!(c.instances.len(), 1);
    assert_eq!(c.instances[0].duration_timer.duration, 5000);
}

#[test]
fn critical_magnitude_is_doubled() {
    let p = resolve_momentary(MomentaryEffect::Damage(1, 9), 7, 500, 499);
    assert_eq!(p, PerformedMomentaryEffect::Damage(14, true));
    let p = resolve_momentary(MomentaryEffect::Heal(1, 9), 7, 500, 500);
    assert_eq!(p, PerformedMomentaryEffect::Heal(7, false));
    let mut h = Health { points: 10, max_points: 40 };
    apply_performed(&mut h, PerformedMomentaryEffect::Heal(14, true));
    assert_eq!(h.points, 24);
    assert_eq!(Critical::default().chance, CRITICAL_CHANCE);
}

#[test]
fn rolls_stay_within_bounds_and_vary() {
    for _ in 0..200 {
        let p = roll_points(MomentaryEffect::Damage(3, 5));
        assert!((3..=5).contains(&p));
        assert!(roll_critical() < CRITICAL_SCALE);
    }
    assert_eq!(roll_points(MomentaryEffect::Heal(9, 9)), 9);
    let mut seen_nonzero = false;
    for _ in 0..200 {
        if roll_critical() != 0 {
            seen_nonzero = true;
        }
    }
    assert!(seen_nonzero);
    let mut seen_high = false;
    for _ in 0..200 {
        if roll_points(MomentaryEffect::Damage(0, 1000)) > 0 {
            seen_high = true;
        }
    }
    assert!(seen_high);
}

#[test]
fn target_position_range_and_sight() {
    let obstacles = vec![Vec2::new(50, 0)];
    assert_eq!(verify_target_position(Vec2::new(0, 0), Vec2::new(30, 40), 50, &vec![]), Ok(()));
    assert_eq!(
        verify_target_position(Vec2::new(0, 0), Vec2::new(30, 41), 50, &vec![]),
        Err(TargetPositionError::Range)
    );
    assert_eq!(
        verify_target_position(Vec2::new(0, 0), Vec2::new(100, 0), 200, &obstacles),
        Err(TargetPositionError::Sight)
    );
    assert_eq!(verify_target_position(Vec2::new(0, 20), Vec2::new(100, 20), 200, &obstacles), Ok(()));
    assert_eq!(
        verify_target_position(Vec2::new(0, 0), Vec2::new(300, 0), 200, &obstacles),
        Err(TargetPositionError::Range)
    );
}

#[test]
fn requires_target_follows_target_modes() {
    assert!(fireball().requires_target());
    assert!(!blaze().requires_target());
    assert!(lesser_heal().requires_target());
    assert!(silence().requires_target());
    assert!(fireball().is_valid());
}

#[test]
fn sprite_indices() {
    assert_eq!(Sprite::Player.index(), 0);
    assert_eq!(Sprite::Goblin.index(), 1);
    assert_eq!(Sprite::TargetIndicator.index(), 2);
    assert_eq!(Sprite::Wall.index(), 3);
}

#[test]
fn zone_layout_and_positions() {
    let zone = Zone::new(22, 16);
    let wall = Some(Tile { sprite: Sprite::Wall, is_obstructed: true });
    assert_eq!(zone.tiles.len(), 22);
    assert_eq!(zone.tiles[0][5], wall);
    assert_eq!(zone.tiles[21][5], wall);
    assert_eq!(zone.tiles[5][0], wall);
    assert_eq!(zone.tiles[5][15], wall);
    assert_eq!(zone.tiles[10][6], wall);
    assert_eq!(zone.tiles[10][7], wall);
    assert_eq!(zone.tiles[10][8], None);
    assert_eq!(zone.tiles[5][5], None);
    assert_eq!(zone.tile_position(0, 0), Vec2::new(-168, -120));
    assert_eq!(zone.tile_position(21, 15), Vec2::new(168, 120));
    let obstacles = zone.obstacle_positions();
    assert_eq!(obstacles.len(), 2 * 22 + 2 * 14 + 2);
    assert!(obstacles.contains(&Vec2::new(-8, -24)));
}

#[test]
fn level_results() {
    let enemies = vec![Health { points: 0, max_points: 80 }, Health { points: 3, max_points: 80 }];
    assert_eq!(level_result(&Health { points: 0, max_points: 160 }, &enemies), LevelResult::Lost);
    assert_eq!(level_result(&Health::new(160), &enemies), LevelResult::InProgress);
    let dead = vec![Health { points: 0, max_points: 80 }, Health { points: 0, max_points: 80 }];
    assert_eq!(level_result(&Health::new(160), &dead), LevelResult::Won);
}

#[test]
fn new_level_places_creatures() {
    let w = new_level();
    assert_eq!(w.creatures.len(), 3);
    assert_eq!(w.creatures[0].position, Vec2::new(-80, 0));
    assert_eq!(w.creatures[0].health.points, 160);
    assert_eq!(w.creatures[1].mana.points, 40);
    assert_eq!(w.obstacles.len(), 74);
}

#[test]
fn closest_creature_within_limit() {
    let ps = vec![Vec2::new(100, 0), Vec2::new(30, 0), Vec2::new(0, 30), Vec2::new(10, 0)];
    assert_eq!(closest_creature(&ps, Vec2::new(0, 0)), Some(3));
    assert_eq!(closest_creature(&ps, Vec2::new(15, 15)), Some(3));
    assert_eq!(closest_creature(&ps, Vec2::new(0, 200)), None);
    let tie = vec![Vec2::new(10, 0), Vec2::new(-10, 0)];
    assert_eq!(closest_creature(&tie, Vec2::new(0, 0)), Some(0));
    assert_eq!(closest_creature(&vec![Vec2::new(40, 0)], Vec2::new(0, 0)), None);
}
