use crate::ability::{Ability, AbilityTargetMode};
use crate::effect::{Effect, LastingEffect, MomentaryEffect, MomentaryEffectSchedule};
use crate::geometry::{distance_squared, Vec2};
use vstd::prelude::*;

verus! {

/// The cursor selects creatures closer than this, in world units.
pub const DISTANCE_LIMIT: u32 = 40;

/// A timed fireball: a hit, then a burn every three seconds for twelve.
pub fn fireball() -> (r: Ability)
    ensures
        r.id == 0,
        r.name@ == "Fireball"@,
        r.mana_points == 20,
        r.cast_duration == 2500,
        r.cooldown_duration == 0,
        r.range == 200,
        r.effect == (
            Effect::Momentary(MomentaryEffect::Damage(30, 50), MomentaryEffectSchedule::Once),
            AbilityTargetMode::Single,
        ),
        r.secondary_effect == Some(
            (
                Effect::Momentary(
                    MomentaryEffect::Damage(2, 3),
                    MomentaryEffectSchedule::Periodic(3000, 12000),
                ),
                AbilityTargetMode::Single,
            ),
        ),
        r.wf(),
{
    Ability {
        id: 0,
        name: "Fireball",
        mana_points: 20,
        cast_duration: 2500,
        cooldown_duration: 0,
        range: 200,
        effect: (
            Effect::Momentary(MomentaryEffect::Damage(30, 50), MomentaryEffectSchedule::Once),
            AbilityTargetMode::Single,
        ),
        secondary_effect: Some(
            (
                Effect::Momentary(
                    MomentaryEffect::Damage(2, 3),
                    MomentaryEffectSchedule::Periodic(3000, 12000),
                ),
                AbilityTargetMode::Single,
            ),
        ),
    }
}

/// An instant blast around the caster, with a ten second cooldown.
pub fn blaze() -> (r: Ability)
    ensures
        r.id == 1,
        r.name@ == "Blaze"@,
        r.mana_points == 30,
        r.cast_duration == 0,
        r.cooldown_duration == 10000,
        r.range == 80,
        r.effect == (
            Effect::Momentary(MomentaryEffect::Damage(20, 30), MomentaryEffectSchedule::Once),
            AbilityTargetMode::Area,
        ),
        r.secondary_effect.is_none(),
        r.wf(),
{
    Ability {
        id: 1,
        name: "Blaze",
        mana_points: 30,
        cast_duration: 0,
        cooldown_duration: 10000,
        range: 80,
        effect: (
            Effect::Momentary(MomentaryEffect::Damage(20, 30), MomentaryEffectSchedule::Once),
            AbilityTargetMode::Area,
        ),
        secondary_effect: None,
    }
}

/// A timed heal of the target.
pub fn lesser_heal() -> (r: Ability)
    ensures
        r.id == 2,
        r.name@ == "Lesser Heal"@,
        r.mana_points == 15,
        r.cast_duration == 1500,
        r.cooldown_duration == 0,
        r.range == 200,
        r.effect == (
            Effect::Momentary(MomentaryEffect::Heal(40, 60), MomentaryEffectSchedule::Once),
            AbilityTargetMode::Single,
        ),
        r.secondary_effect.is_none(),
        r.wf(),
{
    Ability {
        id: 2,
        name: "Lesser Heal",
        mana_points: 15,
        cast_duration: 1500,
        cooldown_duration: 0,
        range: 200,
        effect: (
            Effect::Momentary(MomentaryEffect::Heal(40, 60), MomentaryEffectSchedule::Once),
            AbilityTargetMode::Single,
        ),
        secondary_effect: None,
    }
}

/// An instant silence of the target for four seconds, with a long cooldown.
pub fn silence() -> (r: Ability)
    ensures
        r.id == 3,
        r.name@ == "Silence"@,
        r.mana_points == 20,
        r.cast_duration == 0,
        r.cooldown_duration == 45000,
        r.range == 200,
        r.effect == (Effect::Lasting(LastingEffect::Silence, 4000), AbilityTargetMode::Single),
        r.secondary_effect.is_none(),
        r.wf(),
{
    Ability {
        id: 3,
        name: "Silence",
        mana_points: 20,
        cast_duration: 0,
        cooldown_duration: 45000,
        range: 200,
        effect: (Effect::Lasting(LastingEffect::Silence, 4000), AbilityTargetMode::Single),
        secondary_effect: None,
    }
}

/// The creature of `positions` closest to `cursor`, the first of equals, provided it
/// lies closer than `DISTANCE_LIMIT`.
pub fn closest_creature(positions: &Vec<Vec2>, cursor: Vec2) -> (r: Option<usize>)
    ensures
        match r {
            None => forall|j: int|
                0 <= j < positions@.len() ==> distance_squared(#[trigger] positions@[j], cursor)
                    >= DISTANCE_LIMIT * DISTANCE_LIMIT,
            Some(i) => {
                &&& i < positions@.len()
                &&& distance_squared(positions@[i as int], cursor) < DISTANCE_LIMIT * DISTANCE_LIMIT
                &&& forall|j: int|
                    0 <= j < positions@.len() ==> distance_squared(positions@[i as int], cursor)
                        <= distance_squared(#[trigger] positions@[j], cursor)
                &&& forall|j: int|
                    0 <= j < i ==> distance_squared(positions@[i as int], cursor) < distance_squared(
                        #[trigger] positions@[j],
                        cursor,
                    )
            },
        },
{
    let mut best: Option<usize> = None;
    let mut best_distance: i128 = 0;
    let mut k: usize = 0;
    while k < positions.len()
        invariant
            k <= positions@.len(),
            match best {
                None => forall|j: int|
                    0 <= j < k ==> distance_squared(#[trigger] positions@[j], cursor)
                        >= DISTANCE_LIMIT * DISTANCE_LIMIT,
                Some(i) => {
                    &&& i < k
                    &&& best_distance == distance_squared(positions@[i as int], cursor)
                    &&& best_distance < DISTANCE_LIMIT * DISTANCE_LIMIT
                    &&& forall|j: int|
                        0 <= j < k ==> best_distance <= distance_squared(#[trigger] positions@[j], cursor)
                    &&& forall|j: int|
                        0 <= j < i ==> best_distance < distance_squared(#[trigger] positions@[j], cursor)
                },
            },
        decreases positions@.len() - k,
    {
        let p = positions[k];
        let dx = cursor.x as i64 - p.x as i64;
        let dy = cursor.y as i64 - p.y as i64;
        proof {
            assert(0 <= dx * dx <= 0x1_0000_0000 * 0x1_0000_0000) by (nonlinear_arith)
                requires
                    -0x1_0000_0000 <= dx <= 0x1_0000_0000,
            ;
            assert(0 <= dy * dy <= 0x1_0000_0000 * 0x1_0000_0000) by (nonlinear_arith)
                requires
                    -0x1_0000_0000 <= dy <= 0x1_0000_0000,
            ;
        }
        let d = dx as i128 * dx as i128 + dy as i128 * dy as i128;
        assert(d == distance_squared(positions@[k as int], cursor));
        match best {
            None => {
                if d < (DISTANCE_LIMIT * DISTANCE_LIMIT) as i128 {
                    best = Some(k);
                    best_distance = d;
                }
            },
            Some(_) => {
                if d < best_distance {
                    best = Some(k);
                    best_distance = d;
                }
            },
        }
        k = k + 1;
    }
    best
}

} // verus!
