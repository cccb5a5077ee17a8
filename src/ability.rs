use crate::effect::Effect;
use crate::geometry::{in_range, is_intersecting, segment_hits_box, Vec2};
use crate::sprite::SPRITE_SIZE;
use crate::timer::Timer;
use vstd::prelude::*;

verus! {

/// Milliseconds during which any ability attempt is blocked after one is accepted.
pub const ABILITY_GLOBAL_COOLDOWN_DURATION: u64 = 1500;

/// Side length of an obstacle tile, in world units.
pub const TILE_SIZE: i32 = SPRITE_SIZE;

/// Whether an effect goes to the chosen target or to every creature in range.
#[derive(Clone, Copy, Debug, PartialEq, Eq, Structural)]
pub enum AbilityTargetMode {
    Single,
    Area,
}

/// A castable action. Durations are in milliseconds; a cast duration of zero is instant
/// and a cooldown duration of zero means no cooldown.
#[derive(Clone, Copy, Debug)]
pub struct Ability {
    pub id: u8,
    pub name: &'static str,
    pub mana_points: u16,
    pub cast_duration: u64,
    pub cooldown_duration: u64,
    pub range: u32,
    pub effect: (Effect, AbilityTargetMode),
    pub secondary_effect: Option<(Effect, AbilityTargetMode)>,
}

impl Ability {
    /// Some effect of the ability goes to a chosen target.
    pub open spec fn spec_requires_target(self) -> bool {
        self.effect.1 == AbilityTargetMode::Single || match self.secondary_effect {
            Some(e) => e.1 == AbilityTargetMode::Single,
            None => false,
        }
    }

    pub fn requires_target(&self) -> (r: bool)
        ensures
            r == self.spec_requires_target(),
    {
        let effect_requires_target = match self.effect.1 {
            AbilityTargetMode::Single => true,
            AbilityTargetMode::Area => false,
        };
        let secondary_effect_requires_target = match self.secondary_effect {
            Some((_, AbilityTargetMode::Single)) => true,
            _ => false,
        };
        effect_requires_target || secondary_effect_requires_target
    }
}

/// Request from `source` to use `ability`, on `target` if one is chosen.
#[derive(Clone, Copy, Debug)]
pub struct TryAbility {
    pub source: usize,
    pub ability: Ability,
    pub target: Option<usize>,
}

/// Request to abandon the cast in progress of `source`.
#[derive(Clone, Copy, Debug, PartialEq, Eq, Structural)]
pub struct CancelCastAbility {
    pub source: usize,
}

/// A cast in progress.
#[derive(Clone, Copy, Debug)]
pub struct CastAbility {
    pub ability: Ability,
    pub target: Option<usize>,
    pub duration_timer: Timer,
}

impl CastAbility {
    pub open spec fn started(ability: Ability, target: Option<usize>) -> CastAbility {
        CastAbility {
            ability,
            target,
            duration_timer: Timer { duration: ability.cast_duration, elapsed: 0 },
        }
    }

    pub fn new(ability: Ability, target: Option<usize>) -> (r: CastAbility)
        ensures
            r == CastAbility::started(ability, target),
    {
        CastAbility { ability, target, duration_timer: Timer::new(ability.cast_duration) }
    }

    /// Elapsed and total milliseconds of the cast, for display.
    pub fn progress(&self) -> (r: (u64, u64))
        ensures
            r == (self.duration_timer.elapsed, self.duration_timer.duration),
    {
        (self.duration_timer.elapsed, self.duration_timer.duration)
    }
}

/// Blocks every ability attempt while present.
#[derive(Clone, Copy, Debug, PartialEq, Eq, Structural)]
pub struct AbilityGlobalCooldown {
    pub duration_timer: Timer,
}

impl AbilityGlobalCooldown {
    pub open spec fn fresh() -> AbilityGlobalCooldown {
        AbilityGlobalCooldown {
            duration_timer: Timer { duration: ABILITY_GLOBAL_COOLDOWN_DURATION, elapsed: 0 },
        }
    }
}

impl Default for AbilityGlobalCooldown {
    fn default() -> (r: AbilityGlobalCooldown)
        ensures
            r == AbilityGlobalCooldown::fresh(),
    {
        AbilityGlobalCooldown { duration_timer: Timer::new(ABILITY_GLOBAL_COOLDOWN_DURATION) }
    }
}

/// Blocks one ability, by id, while present.
#[derive(Clone, Copy, Debug, PartialEq, Eq, Structural)]
pub struct AbilityCooldownInstance {
    pub id: u8,
    pub duration_timer: Timer,
}

impl AbilityCooldownInstance {
    pub open spec fn started(ability: Ability) -> AbilityCooldownInstance {
        AbilityCooldownInstance {
            id: ability.id,
            duration_timer: Timer { duration: ability.cooldown_duration, elapsed: 0 },
        }
    }

    pub fn new(ability: Ability) -> (r: AbilityCooldownInstance)
        requires
            ability.cooldown_duration > 0,
        ensures
            r == AbilityCooldownInstance::started(ability),
    {
        AbilityCooldownInstance { id: ability.id, duration_timer: Timer::new(ability.cooldown_duration) }
    }
}

/// Per-ability cooldowns of a creature, at most one per id.
pub struct AbilityCooldowns {
    pub instances: Vec<AbilityCooldownInstance>,
}

/// Some cooldown in `s` has id `id`.
pub open spec fn on_cooldown(s: Seq<AbilityCooldownInstance>, id: u8) -> bool {
    exists|i: int| 0 <= i < s.len() && #[trigger] s[i].id == id
}

/// The cooldowns of `s` whose id is not `id`, in order.
pub open spec fn cooldowns_without(s: Seq<AbilityCooldownInstance>, id: u8) -> Seq<
    AbilityCooldownInstance,
>
    decreases s.len(),
{
    if s.len() == 0 {
        seq![]
    } else {
        let prev = cooldowns_without(s.drop_last(), id);
        if s.last().id == id {
            prev
        } else {
            prev.push(s.last())
        }
    }
}

/// Cooldowns after `delta` milliseconds: each ages, and those that end leave.
pub open spec fn cooldowns_ticked(s: Seq<AbilityCooldownInstance>, delta: u64) -> Seq<
    AbilityCooldownInstance,
>
    decreases s.len(),
{
    if s.len() == 0 {
        seq![]
    } else {
        let prev = cooldowns_ticked(s.drop_last(), delta);
        let inst = AbilityCooldownInstance {
            duration_timer: s.last().duration_timer.ticked(delta),
            ..s.last()
        };
        if inst.duration_timer.is_finished() {
            prev
        } else {
            prev.push(inst)
        }
    }
}

impl AbilityCooldowns {
    pub fn new() -> (r: AbilityCooldowns)
        ensures
            r.instances@ == Seq::<AbilityCooldownInstance>::empty(),
    {
        AbilityCooldowns { instances: Vec::new() }
    }

    pub fn contains(&self, id: u8) -> (r: bool)
        ensures
            r == on_cooldown(self.instances@, id),
    {
        let mut i: usize = 0;
        while i < self.instances.len()
            invariant
                forall|j: int| 0 <= j < i ==> self.instances@[j].id != id,
            decreases self.instances.len() - i,
        {
            if self.instances[i].id == id {
                return true;
            }
            i = i + 1;
        }
        false
    }

    /// Starts the cooldown of `ability`, replacing one of the same id.
    pub fn push(&mut self, ability: Ability)
        requires
            ability.cooldown_duration > 0,
        ensures
            final(self).instances@ == cooldowns_without(old(self).instances@, ability.id).push(
                AbilityCooldownInstance::started(ability),
            ),
    {
        let mut kept: Vec<AbilityCooldownInstance> = Vec::new();
        let mut i: usize = 0;
        while i < self.instances.len()
            invariant
                i <= self.instances.len(),
                kept@ == cooldowns_without(self.instances@.subrange(0, i as int), ability.id),
            decreases self.instances.len() - i,
        {
            let inst = self.instances[i];
            if inst.id != ability.id {
                kept.push(inst);
            }
            assert(self.instances@.subrange(0, i + 1).drop_last() =~= self.instances@.subrange(
                0,
                i as int,
            ));
            i = i + 1;
        }
        assert(self.instances@.subrange(0, i as int) =~= self.instances@);
        kept.push(AbilityCooldownInstance::new(ability));
        self.instances = kept;
    }

    pub fn tick(&mut self, delta: u64)
        ensures
            final(self).instances@ == cooldowns_ticked(old(self).instances@, delta),
    {
        let mut kept: Vec<AbilityCooldownInstance> = Vec::new();
        let mut i: usize = 0;
        while i < self.instances.len()
            invariant
                i <= self.instances.len(),
                kept@ == cooldowns_ticked(self.instances@.subrange(0, i as int), delta),
            decreases self.instances.len() - i,
        {
            let mut inst = self.instances[i];
            inst.duration_timer.tick(delta);
            if !inst.duration_timer.finished() {
                kept.push(inst);
            }
            assert(self.instances@.subrange(0, i + 1).drop_last() =~= self.instances@.subrange(
                0,
                i as int,
            ));
            i = i + 1;
        }
        assert(self.instances@.subrange(0, i as int) =~= self.instances@);
        self.instances = kept;
    }
}

/// Why a target position cannot be reached.
#[derive(Clone, Copy, Debug, PartialEq, Eq, Structural)]
pub enum TargetPositionError {
    Range,
    Sight,
}

/// The tile-sized box of centre `obstacle` blocks the segment `from -> to`.
pub open spec fn blocks(from: Vec2, to: Vec2, obstacle: Vec2) -> bool {
    segment_hits_box(from, to, obstacle, Vec2 { x: TILE_SIZE, y: TILE_SIZE })
}

/// Some obstacle of `obstacles` blocks the segment `from -> to`.
pub open spec fn sight_blocked(from: Vec2, to: Vec2, obstacles: Seq<Vec2>) -> bool {
    exists|i: int| 0 <= i < obstacles.len() && #[trigger] blocks(from, to, obstacles[i])
}

/// Range first, then line of sight.
pub open spec fn target_position_check(
    position: Vec2,
    target_position: Vec2,
    range: u32,
    obstacles: Seq<Vec2>,
) -> Result<(), TargetPositionError> {
    if !in_range(position, target_position, range) {
        Err(TargetPositionError::Range)
    } else if sight_blocked(position, target_position, obstacles) {
        Err(TargetPositionError::Sight)
    } else {
        Ok(())
    }
}

/// Whether `target_position` is within `range` of `position` and visible from it.
pub fn verify_target_position(
    position: Vec2,
    target_position: Vec2,
    range: u32,
    obstacles: &Vec<Vec2>,
) -> (r: Result<(), TargetPositionError>)
    ensures
        r == target_position_check(position, target_position, range, obstacles@),
{
    let dx = target_position.x as i64 - position.x as i64;
    let dy = target_position.y as i64 - position.y as i64;
    proof {
        assert(dx * dx <= 0x1_0000_0000 * 0x1_0000_0000) by (nonlinear_arith)
            requires
                -0x1_0000_0000 <= dx <= 0x1_0000_0000,
        ;
        assert(dy * dy <= 0x1_0000_0000 * 0x1_0000_0000) by (nonlinear_arith)
            requires
                -0x1_0000_0000 <= dy <= 0x1_0000_0000,
        ;
        assert(dx * dx >= 0 && dy * dy >= 0) by (nonlinear_arith);
    }
    let distance_squared = dx as i128 * dx as i128 + dy as i128 * dy as i128;
    assert(range * range <= 0x1_0000_0000 * 0x1_0000_0000) by (nonlinear_arith)
        requires
            range <= 0xffff_ffff,
    ;
    if distance_squared > range as i128 * range as i128 {
        return Err(TargetPositionError::Range);
    }
    assert(in_range(position, target_position, range));
    let size = Vec2::splat(TILE_SIZE);
    let mut i: usize = 0;
    while i < obstacles.len()
        invariant
            size == (Vec2 { x: TILE_SIZE, y: TILE_SIZE }),
            in_range(position, target_position, range),
            forall|j: int| 0 <= j < i ==> !#[trigger] blocks(position, target_position, obstacles@[j]),
        decreases obstacles.len() - i,
    {
        if is_intersecting(position, target_position, obstacles[i], size) {
            assert(blocks(position, target_position, obstacles@[i as int]));
            return Err(TargetPositionError::Sight);
        }
        i = i + 1;
    }
    Ok(())
}

} // verus!
