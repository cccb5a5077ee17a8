use crate::geometry::Vec2;
use crate::health::Health;
use crate::world::{Creature, World};
use crate::zone::{zone_obstacles, Zone};
use vstd::prelude::*;

verus! {

/// Columns of the level's zone.
pub const ZONE_COLUMNS: usize = 22;

/// Rows of the level's zone.
pub const ZONE_ROWS: usize = 16;

/// Health and mana of the player.
pub const PLAYER_HEALTH: u16 = 160;

pub const PLAYER_MANA: u16 = 100;

/// Health and mana of a goblin.
pub const GOBLIN_HEALTH: u16 = 80;

pub const GOBLIN_MANA: u16 = 40;

/// How the level ended, if it did.
#[derive(Clone, Copy, Debug, PartialEq, Eq, Structural)]
pub enum LevelResult {
    InProgress,
    Won,
    Lost,
}

/// The player loses at zero health; otherwise the player wins once every enemy is at
/// zero health.
pub open spec fn spec_level_result(player: Health, enemies: Seq<Health>) -> LevelResult {
    if player.points == 0 {
        LevelResult::Lost
    } else if forall|i: int| 0 <= i < enemies.len() ==> (#[trigger] enemies[i]).points == 0 {
        LevelResult::Won
    } else {
        LevelResult::InProgress
    }
}

pub fn level_result(player: &Health, enemies: &Vec<Health>) -> (r: LevelResult)
    ensures
        r == spec_level_result(*player, enemies@),
{
    if player.points == 0 {
        return LevelResult::Lost;
    }
    let mut i: usize = 0;
    while i < enemies.len()
        invariant
            i <= enemies@.len(),
            player.points != 0,
            forall|j: int| 0 <= j < i ==> (#[trigger] enemies@[j]).points == 0,
        decreases enemies@.len() - i,
    {
        if enemies[i].points != 0 {
            assert(enemies@[i as int].points != 0);
            return LevelResult::InProgress;
        }
        i = i + 1;
    }
    LevelResult::Won
}

/// The level at its start: the walls of its zone as obstacles, the player (index 0) on
/// the left and two goblins (indices 1 and 2) on the right.
pub fn new_level() -> (r: World)
    ensures
        r.wf(),
        r.regen_elapsed == 0,
        (exists|z: Zone|
            z.is_new(ZONE_COLUMNS, ZONE_ROWS) && r.obstacles@ == #[trigger] zone_obstacles(
                z,
                ZONE_COLUMNS as int,
            )),
        r.creatures@.len() == 3,
        r.creatures@[0].position == (Vec2 { x: -80i32, y: 0 }),
        r.creatures@[0].health == Health::new_spec(PLAYER_HEALTH),
        r.creatures@[0].mana.points == PLAYER_MANA,
        r.creatures@[1].position == (Vec2 { x: 80, y: 30 }),
        r.creatures@[2].position == (Vec2 { x: 80, y: -30i32 }),
        r.creatures@[1].health == Health::new_spec(GOBLIN_HEALTH),
        r.creatures@[2].health == Health::new_spec(GOBLIN_HEALTH),
        r.creatures@[1].mana.points == GOBLIN_MANA,
        r.creatures@[2].mana.points == GOBLIN_MANA,
{
    let zone = Zone::new(ZONE_COLUMNS, ZONE_ROWS);
    let mut world = World::new(zone.obstacle_positions());
    world.spawn(Creature::new(Vec2::new(-80, 0), PLAYER_HEALTH, PLAYER_MANA));
    world.spawn(Creature::new(Vec2::new(80, 30), GOBLIN_HEALTH, GOBLIN_MANA));
    world.spawn(Creature::new(Vec2::new(80, -30), GOBLIN_HEALTH, GOBLIN_MANA));
    world
}

} // verus!
