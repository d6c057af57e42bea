//! Tunables, handed to the simulation as an immutable snapshot.

use vstd::prelude::*;
use crate::math::{in_limit, WorldCoord, COORD_LIMIT, TICKS_PER_SECOND};

verus! {

/// Width of the world.
pub const WORLD_WIDTH: WorldCoord = 32_000;

/// Height of the world.
pub const WORLD_HEIGHT: WorldCoord = 24_000;

/// A ratio of one, in thousandths.
pub const FULL_RATIO: u32 = 1000;

/// Player tunables.
#[derive(Clone, Copy, Debug, PartialEq, Eq, Structural)]
pub struct PlayerConfig {
    pub max_health: u8,
    pub max_lives: u8,
    pub height: WorldCoord,
    pub width: WorldCoord,
    pub shoot_offset_x: WorldCoord,
    pub shoot_offset_y: WorldCoord,
    /// Upward speed given by the first jump.
    pub jump_power: WorldCoord,
    /// Upward speed given by the second jump.
    pub second_jump_power: WorldCoord,
}

impl PlayerConfig {
    /// The player fits into the world and every tunable is small enough for
    /// the arithmetic done with it.
    pub open spec fn wf(&self) -> bool {
        &&& 0 < self.width <= WORLD_WIDTH
        &&& 0 < self.height <= WORLD_HEIGHT
        &&& -WORLD_WIDTH <= self.shoot_offset_x <= WORLD_WIDTH
        &&& -WORLD_HEIGHT <= self.shoot_offset_y <= WORLD_HEIGHT
        &&& in_limit(self.jump_power * TICKS_PER_SECOND)
        &&& in_limit(self.second_jump_power * TICKS_PER_SECOND)
    }

    pub fn is_wf(&self) -> (b: bool)
        ensures
            b == self.wf(),
    {
        let power_limit: i64 = COORD_LIMIT / TICKS_PER_SECOND;
        assert(power_limit * 60 <= COORD_LIMIT < (power_limit + 1) * 60);
        0 < self.width && self.width <= WORLD_WIDTH && 0 < self.height && self.height
            <= WORLD_HEIGHT && -WORLD_WIDTH <= self.shoot_offset_x && self.shoot_offset_x
            <= WORLD_WIDTH && -WORLD_HEIGHT <= self.shoot_offset_y && self.shoot_offset_y
            <= WORLD_HEIGHT && -power_limit <= self.jump_power && self.jump_power <= power_limit
            && -power_limit <= self.second_jump_power && self.second_jump_power <= power_limit
    }
}

impl Default for PlayerConfig {
    fn default() -> (c: PlayerConfig)
        ensures
            c.wf(),
            c == (PlayerConfig {
                max_health: 4,
                max_lives: 4,
                height: 800,
                width: 800,
                shoot_offset_x: 533,
                shoot_offset_y: 533,
                jump_power: 16_000,
                second_jump_power: 16_000,
            }),
    {
        PlayerConfig {
            max_health: 4,
            max_lives: 4,
            height: 800,
            width: 800,
            shoot_offset_x: 533,
            shoot_offset_y: 533,
            jump_power: 16_000,
            second_jump_power: 16_000,
        }
    }
}

/// Grid tunables. Ratios are in thousandths.
#[derive(Clone, Copy, Debug, PartialEq, Eq, Structural)]
pub struct GridConfig {
    /// Acceleration of a falling grid; not positive.
    pub falling_accel: WorldCoord,
    /// A grid dies once its share of surviving tiles drops below this.
    pub death_threshold: u32,
    /// Nobody respawns on the lowest grid while its share of surviving tiles
    /// is below this.
    pub no_spawn_threshold: u32,
    /// A grid starts to fall once it hangs more than this above its goal.
    pub gap: WorldCoord,
    /// Chance, per tick, that erosion damages one tile.
    pub erosion_chance: u32,
}

impl GridConfig {
    pub open spec fn wf(&self) -> bool {
        &&& -COORD_LIMIT <= self.falling_accel <= 0
        &&& self.death_threshold <= FULL_RATIO
        &&& self.no_spawn_threshold <= FULL_RATIO
        &&& 0 <= self.gap <= COORD_LIMIT
        &&& self.erosion_chance <= FULL_RATIO
    }

    pub fn is_wf(&self) -> (b: bool)
        ensures
            b == self.wf(),
    {
        -COORD_LIMIT <= self.falling_accel && self.falling_accel <= 0 && self.death_threshold
            <= FULL_RATIO && self.no_spawn_threshold <= FULL_RATIO && 0 <= self.gap && self.gap
            <= COORD_LIMIT && self.erosion_chance <= FULL_RATIO
    }
}

impl Default for GridConfig {
    fn default() -> (c: GridConfig)
        ensures
            c.wf(),
            c == (GridConfig {
                falling_accel: -25_000i64,
                death_threshold: 950,
                no_spawn_threshold: 500,
                gap: 500,
                erosion_chance: 200,
            }),
    {
        GridConfig {
            falling_accel: -25_000i64,
            death_threshold: 950,
            no_spawn_threshold: 500,
            gap: 500,
            erosion_chance: 200,
        }
    }
}

} // verus!
