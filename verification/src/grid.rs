//! Destructible terrain: tiles, the fixed-size module they are laid out in,
//! and the grid that carries one module through the world.

use vstd::prelude::*;
use crate::config::{GridConfig, FULL_RATIO};
use crate::math::{
    clamp, clamp_spec, in_limit, per_tick, rate_per_tick, rect_from_point, saturate,
    saturating_sum, Point2, Rect, WorldCoord, COORD_LIMIT,
};

verus! {

pub type GridCoord = usize;

/// Tiles in a row of a module.
pub const GRID_WIDTH: GridCoord = 32;

/// Rows in a module.
pub const GRID_HEIGHT: GridCoord = 8;

/// Edge length of a tile, which is one world unit.
pub const TILE_SIZE: WorldCoord = 1000;

/// Health of a freshly laid solid tile.
pub const TILE_MAX_HEALTH: u8 = 5;

/// A grid's offset stays this far inside the coordinate limit, so that every
/// point on or just above the grid is itself within the limit.
pub const GRID_OFFSET_LIMIT: WorldCoord = COORD_LIMIT - 40_000;

#[derive(Debug, Copy, Clone, Eq, PartialEq, Structural)]
pub enum Tile {
    /// Empty space.
    Air,
    /// Destructible ground with its remaining health.
    Solid(u8),
    /// Lobby marker of a lane; shooting it toggles the shooter's readiness.
    Start(u8),
    /// Lobby marker; shooting it frees the shooter's slot.
    Leave,
}

/// A layout of tiles; row zero is the bottom row.
pub type Module = [[Tile; GRID_WIDTH]; GRID_HEIGHT];

/// A tile with its column and row.
pub type TileAt = (Tile, GridCoord, GridCoord);

/// A point in grid space, in thousandths of a tile.
pub type GridPoint = Point2;

pub type WorldRect = Rect;

/// World length of one tile step.
pub const GRID_TO_WORLD: WorldCoord = 1000;

/// Width of a grid in grid space.
pub const GRID_WIDTH_COORD: WorldCoord = 32_000;

/// Height of a grid in grid space.
pub const GRID_HEIGHT_COORD: WorldCoord = 8_000;

impl Tile {
    /// Remaining health; only solid tiles have any.
    pub open spec fn health(self) -> nat {
        match self {
            Tile::Solid(h) => h as nat,
            _ => 0,
        }
    }

    /// The tile after one point of damage: a solid tile loses one health and
    /// turns to air when none is left; every other tile is untouched.
    pub open spec fn damaged(self) -> Tile {
        match self {
            Tile::Solid(h) => if h == 0 {
                self
            } else if h == 1 {
                Tile::Air
            } else {
                Tile::Solid((h - 1) as u8)
            },
            _ => self,
        }
    }

    /// Whether one point of damage changes the tile.
    pub open spec fn takes_damage(self) -> bool {
        self matches Tile::Solid(h) && h > 0
    }
}

/// The rows of a module, bottom row first.
pub open spec fn module_tiles(m: Module) -> Seq<Seq<Tile>> {
    Seq::new(GRID_HEIGHT as nat, |y: int| m@[y]@)
}

/// `tiles` has the shape of a module.
pub open spec fn tiles_wf(tiles: Seq<Seq<Tile>>) -> bool {
    &&& tiles.len() == GRID_HEIGHT
    &&& forall|y: int| 0 <= y < GRID_HEIGHT ==> (#[trigger] tiles[y]).len() == GRID_WIDTH
}

/// Number of tiles other than air among the first `n` of `row`.
pub open spec fn count_row(row: Seq<Tile>, n: nat) -> nat
    decreases n,
{
    if n == 0 {
        0
    } else {
        count_row(row, (n - 1) as nat) + if row[n - 1] == Tile::Air {
            0nat
        } else {
            1nat
        }
    }
}

/// Number of tiles other than air in the first `rows` rows.
pub open spec fn count_rows(tiles: Seq<Seq<Tile>>, rows: nat) -> nat
    decreases rows,
{
    if rows == 0 {
        0
    } else {
        count_rows(tiles, (rows - 1) as nat) + count_row(tiles[rows - 1], tiles[rows - 1].len())
    }
}

/// Number of tiles other than air.
pub open spec fn count_non_air(tiles: Seq<Seq<Tile>>) -> nat {
    count_rows(tiles, tiles.len())
}

/// `module` with one point of damage dealt to the tile in column `x`, row
/// `y`.
pub open spec fn damage_module(module: Module, x: int, y: int) -> Module {
    vstd::array::spec_array_update(
        module,
        y,
        vstd::array::spec_array_update(module[y], x, module[y][x].damaged()),
    )
}

/// Two modules with the same tiles are the same module.
pub proof fn lemma_module_ext(a: Module, b: Module)
    requires
        module_tiles(a) == module_tiles(b),
    ensures
        a == b,
{
    assert forall|y: int| 0 <= y < GRID_HEIGHT implies a[y] == b[y] by {
        assert(module_tiles(a)[y] == module_tiles(b)[y]);
        assert(a[y]@ == b[y]@);
        assert(a[y] =~= b[y]);
    }
    assert(a =~= b);
}

/// Damage to a module is damage to its tiles.
pub proof fn lemma_damage_module(module: Module, x: int, y: int)
    requires
        0 <= x < GRID_WIDTH,
        0 <= y < GRID_HEIGHT,
    ensures
        module_tiles(damage_module(module, x, y)) == damage_at(module_tiles(module), x, y),
{
    assert(module_tiles(damage_module(module, x, y)) =~~= damage_at(module_tiles(module), x, y));
}

/// `tiles` with one point of damage dealt to the tile in column `x`, row `y`.
pub open spec fn damage_at(tiles: Seq<Seq<Tile>>, x: int, y: int) -> Seq<Seq<Tile>> {
    tiles.update(y, tiles[y].update(x, tiles[y][x].damaged()))
}

/// Replacing one tile of a row changes the count by what the old and the new
/// tile each contribute.
pub proof fn lemma_count_row_update(row: Seq<Tile>, i: int, t: Tile, n: nat)
    requires
        0 <= i < row.len(),
        n <= row.len(),
    ensures
        count_row(row.update(i, t), n) + (if i < n && row[i] != Tile::Air {
            1nat
        } else {
            0nat
        }) == count_row(row, n) + (if i < n && t != Tile::Air {
            1nat
        } else {
            0nat
        }),
    decreases n,
{
    if n > 0 {
        lemma_count_row_update(row, i, t, (n - 1) as nat);
    }
}

/// Replacing one row changes the count by what the old and the new row each
/// contribute.
pub proof fn lemma_count_rows_update(tiles: Seq<Seq<Tile>>, y: int, row: Seq<Tile>, rows: nat)
    requires
        0 <= y < tiles.len(),
        rows <= tiles.len(),
    ensures
        count_rows(tiles.update(y, row), rows) + (if y < rows {
            count_row(tiles[y], tiles[y].len())
        } else {
            0nat
        }) == count_rows(tiles, rows) + (if y < rows {
            count_row(row, row.len())
        } else {
            0nat
        }),
    decreases rows,
{
    if rows > 0 {
        lemma_count_rows_update(tiles, y, row, (rows - 1) as nat);
    }
}

/// Damage destroys at most the tile it is dealt to, and the count of tiles
/// other than air drops by one exactly when that tile had one health left.
pub proof fn lemma_damage_count(tiles: Seq<Seq<Tile>>, x: int, y: int)
    requires
        tiles_wf(tiles),
        0 <= x < GRID_WIDTH,
        0 <= y < GRID_HEIGHT,
    ensures
        tiles_wf(damage_at(tiles, x, y)),
        count_non_air(damage_at(tiles, x, y)) + (if tiles[y][x] == Tile::Solid(1) {
            1nat
        } else {
            0nat
        }) == count_non_air(tiles),
{
    let row = tiles[y].update(x, tiles[y][x].damaged());
    lemma_count_row_update(tiles[y], x, tiles[y][x].damaged(), tiles[y].len());
    lemma_count_rows_update(tiles, y, row, tiles.len());
    assert(damage_at(tiles, x, y).len() == tiles.len());
}

/// Number of tiles other than air in `module`.
pub fn total_tiles(module: Module) -> (total: usize)
    ensures
        total == count_non_air(module_tiles(module)),
        total <= GRID_WIDTH * GRID_HEIGHT,
{
    let ghost tiles = module_tiles(module);
    let mut total: usize = 0;
    let mut y: usize = 0;
    while y < GRID_HEIGHT
        invariant
            y <= GRID_HEIGHT,
            tiles == module_tiles(module),
            total == count_rows(tiles, y as nat),
            total <= y * GRID_WIDTH,
        decreases GRID_HEIGHT - y,
    {
        let mut x: usize = 0;
        let ghost before = total;
        while x < GRID_WIDTH
            invariant
                x <= GRID_WIDTH,
                y < GRID_HEIGHT,
                tiles == module_tiles(module),
                total == before + count_row(tiles[y as int], x as nat),
                before <= y * GRID_WIDTH,
                total <= before + x,
            decreases GRID_WIDTH - x,
        {
            match module[y][x] {
                Tile::Air => {},
                _ => {
                    total += 1;
                },
            }
            x += 1;
        }
        y += 1;
    }
    total
}

#[derive(Debug, Copy, Clone, Eq, PartialEq, Structural)]
pub enum GridState {
    Alive,
    Dead,
}

/// A grid holds the tiles that moving things collide with.
#[derive(Debug, Clone, PartialEq, Eq)]
pub struct Grid {
    /// The tiles; row zero is the bottom row.
    pub module: Module,
    /// Position of the lower left corner.
    pub world_offset: Point2,
    pub state: GridState,
    /// Vertical velocity while falling.
    pub velocity: WorldCoord,
    /// Vertical acceleration while falling.
    pub acceleration: WorldCoord,
    /// Number of tiles other than air at creation.
    pub total_tiles: usize,
    /// Number of tiles other than air now.
    pub tiles_alive: usize,
}

impl Grid {
    /// The tiles, bottom row first.
    pub open spec fn tiles(&self) -> Seq<Seq<Tile>> {
        module_tiles(self.module)
    }

    /// The counters agree with the tiles and the motion is within limits.
    pub open spec fn wf(&self) -> bool {
        &&& self.tiles_alive == count_non_air(self.tiles())
        &&& self.tiles_alive <= self.total_tiles <= GRID_WIDTH * GRID_HEIGHT
        &&& -GRID_OFFSET_LIMIT <= self.world_offset.x <= GRID_OFFSET_LIMIT
        &&& -GRID_OFFSET_LIMIT <= self.world_offset.y <= GRID_OFFSET_LIMIT
        &&& in_limit(self.velocity as int)
        &&& in_limit(self.acceleration as int)
    }

    /// Everything but the tiles and their count is as in `other`.
    pub open spec fn same_frame(&self, other: &Grid) -> bool {
        &&& self.world_offset == other.world_offset
        &&& self.state == other.state
        &&& self.velocity == other.velocity
        &&& self.acceleration == other.acceleration
        &&& self.total_tiles == other.total_tiles
    }

    /// A grid of the given layout, alive and at rest, whose lower left
    /// corner is at `(0, height)`.
    pub open spec fn made(height: WorldCoord, module: Module) -> Grid {
        Grid {
            module,
            world_offset: Point2 { x: 0, y: height },
            state: GridState::Alive,
            velocity: 0,
            acceleration: 0,
            total_tiles: count_non_air(module_tiles(module)) as usize,
            tiles_alive: count_non_air(module_tiles(module)) as usize,
        }
    }

    pub fn new_from_module(height: WorldCoord, module: Module) -> (grid: Grid)
        requires
            -GRID_OFFSET_LIMIT <= height <= GRID_OFFSET_LIMIT,
        ensures
            grid.wf(),
            grid == Self::made(height, module),
            grid.module == module,
            grid.world_offset == (Point2 { x: 0, y: height }),
            grid.state == GridState::Alive,
            grid.velocity == 0,
            grid.acceleration == 0,
            grid.total_tiles == count_non_air(module_tiles(module)),
            grid.tiles_alive == grid.total_tiles,
    {
        let total_tiles = total_tiles(module);
        Grid {
            module: module,
            world_offset: Point2::new(0, height),
            state: GridState::Alive,
            velocity: 0,
            acceleration: 0,
            total_tiles: total_tiles,
            tiles_alive: total_tiles,
        }
    }

    pub fn height(&self) -> (h: WorldCoord)
        ensures
            h == self.world_offset.y,
    {
        self.world_offset.y
    }

    /// The grid after one point of damage to the tile in column `x`, row `y`.
    pub open spec fn damaged(&self, x: int, y: int) -> Grid {
        Grid {
            module: damage_module(self.module, x, y),
            tiles_alive: if self.tiles()[y][x] == Tile::Solid(1) {
                (self.tiles_alive - 1) as usize
            } else {
                self.tiles_alive
            },
            ..*self
        }
    }

    /// Deals one point of damage to the tile in column `x`, row `y`, and says
    /// whether the tile took it. A tile that is not solid, or has no health
    /// left, takes none.
    pub fn damage_tile(&mut self, x: GridCoord, y: GridCoord) -> (hit: bool)
        requires
            old(self).wf(),
            x < GRID_WIDTH,
            y < GRID_HEIGHT,
        ensures
            final(self).wf(),
            *final(self) == old(self).damaged(x as int, y as int),
            final(self).same_frame(old(self)),
            final(self).tiles() == damage_at(old(self).tiles(), x as int, y as int),
            hit == old(self).tiles()[y as int][x as int].takes_damage(),
            final(self).tiles_alive == count_non_air(final(self).tiles()),
            forall|i: int, j: int|
                0 <= i < GRID_WIDTH && 0 <= j < GRID_HEIGHT ==> old(self).tiles()[j][i].health()
                    >= (#[trigger] final(self).tiles()[j][i]).health(),
    {
        proof {
            lemma_damage_count(self.tiles(), x as int, y as int);
            lemma_damage_module(self.module, x as int, y as int);
        }
        let ghost before = self.tiles();
        let ghost goal = old(self).damaged(x as int, y as int);
        match self.module[y][x] {
            Tile::Solid(health) => {
                if health == 0 {
                    assert(self.tiles() =~~= damage_at(before, x as int, y as int));
                    proof {
                        lemma_module_ext(self.module, goal.module);
                    }
                    return false;
                }
                if health == 1 {
                    self.module[y][x] = Tile::Air;
                    assert(self.tiles() =~~= damage_at(before, x as int, y as int));
                    proof {
                        lemma_module_ext(self.module, goal.module);
                    }
                    self.tiles_alive -= 1;
                } else {
                    self.module[y][x] = Tile::Solid(health - 1);
                    assert(self.tiles() =~~= damage_at(before, x as int, y as int));
                    proof {
                        lemma_module_ext(self.module, goal.module);
                    }
                }
                true
            },
            _ => {
                assert(self.tiles() =~~= damage_at(before, x as int, y as int));
                    proof {
                        lemma_module_ext(self.module, goal.module);
                    }
                false
            },
        }
    }

    /// Share of the tiles present at creation that survive, in thousandths.
    /// A grid created without tiles counts as whole.
    pub open spec fn alive_ratio(&self) -> int {
        if self.total_tiles == 0 {
            FULL_RATIO as int
        } else {
            self.tiles_alive * FULL_RATIO / (self.total_tiles as int)
        }
    }

    pub fn percent_tiles_alive(&self) -> (ratio: u32)
        requires
            self.wf(),
        ensures
            ratio == self.alive_ratio(),
            ratio <= FULL_RATIO,
    {
        if self.total_tiles == 0 {
            return FULL_RATIO;
        }
        let alive: u32 = self.tiles_alive as u32;
        let total: u32 = self.total_tiles as u32;
        assert(alive * 1000 / (total as int) <= 1000) by (nonlinear_arith)
            requires
                0 <= alive <= total,
                total > 0,
        ;
        alive * FULL_RATIO / total
    }

    /// The state after the death check: an alive grid whose share of
    /// surviving tiles is below the death threshold dies; a dead grid stays
    /// dead.
    pub open spec fn next_state(&self, config: &GridConfig) -> GridState {
        if self.state == GridState::Alive && self.alive_ratio() < config.death_threshold {
            GridState::Dead
        } else {
            self.state
        }
    }

    /// The grid after the death check.
    pub open spec fn after_update(&self, config: &GridConfig) -> Grid {
        Grid { state: self.next_state(config), ..*self }
    }

    /// Runs the death check.
    pub fn update(&mut self, config: &GridConfig)
        requires
            old(self).wf(),
            config.wf(),
        ensures
            final(self).wf(),
            *final(self) == old(self).after_update(config),
            final(self).state == old(self).next_state(config),
            old(self).state == GridState::Dead ==> final(self).state == GridState::Dead,
            final(self).module == old(self).module,
            final(self).tiles_alive == old(self).tiles_alive,
            final(self).world_offset == old(self).world_offset,
            final(self).velocity == old(self).velocity,
            final(self).acceleration == old(self).acceleration,
            final(self).total_tiles == old(self).total_tiles,
    {
        if self.percent_tiles_alive() < config.death_threshold && self.state == GridState::Alive {
            self.state = GridState::Dead;
        }
    }

    /// Acceleration during the next tick: a grid that hangs more than the
    /// configured gap above its goal falls; otherwise it goes on as it was.
    pub open spec fn next_acceleration(&self, goal_height: int, config: &GridConfig) -> int {
        if self.world_offset.y - goal_height > config.gap {
            config.falling_accel as int
        } else {
            self.acceleration as int
        }
    }

    /// Velocity after the next tick.
    pub open spec fn next_velocity(&self, goal_height: int, config: &GridConfig) -> int {
        saturate(self.velocity + per_tick(self.next_acceleration(goal_height, config)))
    }

    /// Height after the next tick if nothing stopped the grid.
    pub open spec fn next_height(&self, goal_height: int, config: &GridConfig) -> int {
        self.world_offset.y + per_tick(self.next_velocity(goal_height, config))
    }

    /// Whether the next tick carries the grid below its goal, where it lands.
    pub open spec fn lands(&self, goal_height: int, config: &GridConfig) -> bool {
        self.next_height(goal_height, config) < goal_height
    }

    /// The grid after one tick of its fall toward `goal_height`. A grid that
    /// lands is put at the goal and comes to rest; any other moves on, at
    /// most up to the limit of grid offsets.
    pub open spec fn after_fixed_update(&self, goal_height: int, config: &GridConfig) -> Grid {
        if self.lands(goal_height, config) {
            Grid {
                world_offset: Point2 { x: self.world_offset.x, y: goal_height as i64 },
                velocity: 0,
                acceleration: 0,
                ..*self
            }
        } else {
            Grid {
                world_offset: Point2 {
                    x: self.world_offset.x,
                    y: clamp_spec(
                        goal_height,
                        GRID_OFFSET_LIMIT as int,
                        self.next_height(goal_height, config),
                    ) as i64,
                },
                velocity: self.next_velocity(goal_height, config) as i64,
                acceleration: self.next_acceleration(goal_height, config) as i64,
                ..*self
            }
        }
    }

    /// Advances the fall by one tick toward `goal_height` and says whether
    /// the grid landed. A landing grid is put at the goal and comes to rest.
    pub fn fixed_update(&mut self, goal_height: WorldCoord, config: &GridConfig) -> (landed: bool)
        requires
            old(self).wf(),
            config.wf(),
            -GRID_OFFSET_LIMIT <= goal_height <= GRID_OFFSET_LIMIT,
        ensures
            final(self).wf(),
            *final(self) == old(self).after_fixed_update(goal_height as int, config),
            landed == old(self).lands(goal_height as int, config),
            final(self).world_offset.y >= goal_height,
            landed ==> final(self).world_offset.y == goal_height && final(self).velocity == 0
                && final(self).acceleration == 0,
            !landed ==> final(self).world_offset.y == clamp_spec(
                goal_height as int,
                GRID_OFFSET_LIMIT as int,
                old(self).next_height(goal_height as int, config),
            ) && final(self).velocity == old(self).next_velocity(goal_height as int, config)
                && final(self).acceleration == old(self).next_acceleration(
                goal_height as int,
                config,
            ),
            final(self).world_offset.x == old(self).world_offset.x,
            final(self).module == old(self).module,
            final(self).state == old(self).state,
            final(self).total_tiles == old(self).total_tiles,
            final(self).tiles_alive == old(self).tiles_alive,
    {
        if self.world_offset.y - goal_height > config.gap {
            self.acceleration = config.falling_accel;
        }
        self.velocity = saturating_sum(self.velocity, rate_per_tick(self.acceleration));
        let next: WorldCoord = self.world_offset.y + rate_per_tick(self.velocity);
        if next < goal_height {
            self.world_offset.y = goal_height;
            self.velocity = 0;
            self.acceleration = 0;
            true
        } else {
            self.world_offset.y = clamp(goal_height, GRID_OFFSET_LIMIT, next);
            false
        }
    }

    /// World position of the lower left corner of the cell in column
    /// `grid_coords.0`, row `grid_coords.1`.
    pub open spec fn world_coords(&self, x: int, y: int) -> Point2 {
        Point2 {
            x: (self.world_offset.x + GRID_TO_WORLD * x) as i64,
            y: (self.world_offset.y + GRID_TO_WORLD * y) as i64,
        }
    }

    pub fn to_world_coords(&self, grid_coords: (GridCoord, GridCoord)) -> (p: Point2)
        requires
            self.wf(),
            grid_coords.0 <= GRID_WIDTH,
            grid_coords.1 <= GRID_HEIGHT,
        ensures
            p == self.world_coords(grid_coords.0 as int, grid_coords.1 as int),
            p.x == self.world_offset.x + GRID_TO_WORLD * grid_coords.0,
            p.y == self.world_offset.y + GRID_TO_WORLD * grid_coords.1,
            p.wf(),
    {
        Point2::new(
            self.world_offset.x + GRID_TO_WORLD * (grid_coords.0 as i64),
            self.world_offset.y + GRID_TO_WORLD * (grid_coords.1 as i64),
        )
    }

    /// Position of a world point relative to the grid, in thousandths of a
    /// tile.
    pub fn to_grid_coords(&self, world_coords: Point2) -> (p: GridPoint)
        requires
            self.wf(),
            world_coords.wf(),
        ensures
            p.x == world_coords.x - self.world_offset.x,
            p.y == world_coords.y - self.world_offset.y,
    {
        Point2::new(self.to_grid_x(world_coords.x), self.to_grid_y(world_coords.y))
    }

    pub open spec fn grid_x(&self, x: int) -> int {
        x - self.world_offset.x
    }

    pub open spec fn grid_y(&self, y: int) -> int {
        y - self.world_offset.y
    }

    /// Horizontal position relative to the grid, in thousandths of a tile.
    pub fn to_grid_x(&self, x: WorldCoord) -> (r: WorldCoord)
        requires
            self.wf(),
            -8 * COORD_LIMIT <= x <= 8 * COORD_LIMIT,
        ensures
            r == self.grid_x(x as int),
    {
        x - self.world_offset.x
    }

    /// Vertical position relative to the grid, in thousandths of a tile.
    pub fn to_grid_y(&self, y: WorldCoord) -> (r: WorldCoord)
        requires
            self.wf(),
            -8 * COORD_LIMIT <= y <= 8 * COORD_LIMIT,
        ensures
            r == self.grid_y(y as int),
    {
        y - self.world_offset.y
    }

    /// Whether a query for `rect` is answered at all: a rectangle that ends
    /// below the grid or starts above it, or that reaches past the grid's
    /// left or right edge, is answered with nothing.
    pub open spec fn answers(&self, rect: Rect) -> bool {
        &&& self.grid_y(rect.y + rect.h) >= 0
        &&& self.grid_y(rect.y as int) <= GRID_HEIGHT * GRID_TO_WORLD
        &&& self.grid_x(rect.x as int) >= 0
        &&& self.grid_x(rect.x + rect.w) <= GRID_WIDTH * GRID_TO_WORLD
    }

    /// The tiles other than air in the cells that `rect` reaches, column by
    /// column from the left, each column from the bottom.
    pub open spec fn overlapping(&self, rect: Rect) -> Seq<TileAt> {
        if self.answers(rect) {
            region_hits(
                self.tiles(),
                cell_index(self.grid_x(rect.x as int), GRID_WIDTH as int),
                cell_index(self.grid_x(rect.x + rect.w), GRID_WIDTH as int) + 1,
                cell_index(self.grid_y(rect.y as int), GRID_HEIGHT as int),
                cell_index(self.grid_y(rect.y + rect.h), GRID_HEIGHT as int) + 1,
            )
        } else {
            Seq::empty()
        }
    }

    /// Appends to `out` the tiles other than air in the cells that `rect`
    /// reaches.
    pub fn overlapping_tiles(&self, rect: WorldRect, out: &mut Vec<TileAt>)
        requires
            self.wf(),
            rect.wf(),
        ensures
            final(out)@ == old(out)@ + self.overlapping(rect),
    {
        let left: WorldCoord = self.to_grid_x(rect.x);
        let right: WorldCoord = self.to_grid_x(rect.x + rect.w);
        let top: WorldCoord = self.to_grid_y(rect.y + rect.h);
        let bottom: WorldCoord = self.to_grid_y(rect.y);

        if top < 0 || bottom > GRID_HEIGHT_COORD || left < 0 || right > GRID_WIDTH_COORD {
            assert(final(out)@ =~= old(out)@ + self.overlapping(rect)) by {
                assert(!self.answers(rect));
            }
            return ;
        }
        assert(self.answers(rect));
        let left: usize = to_cell(left, GRID_WIDTH);
        let right: usize = to_cell(right, GRID_WIDTH);
        let bottom: usize = to_cell(bottom, GRID_HEIGHT);
        let top: usize = to_cell(top, GRID_HEIGHT);
        let ghost tiles = self.tiles();

        let mut x: usize = left;
        while x <= right
            invariant
                left <= x,
                right < GRID_WIDTH,
                top < GRID_HEIGHT,
                tiles == self.tiles(),
                out@ == old(out)@ + region_hits(
                    tiles,
                    left as int,
                    x as int,
                    bottom as int,
                    top + 1,
                ),
                left > right ==> x == left,
                left <= right ==> x <= right + 1,
            decreases right + 1 - x + (GRID_WIDTH - left),
        {
            let ghost column_start = out@;
            let mut y: usize = bottom;
            while y <= top
                invariant
                    bottom <= y,
                    x < GRID_WIDTH,
                    top < GRID_HEIGHT,
                    tiles == self.tiles(),
                    out@ == column_start + column_hits(tiles, x as int, bottom as int, y as int),
                    bottom <= top ==> y <= top + 1,
                    bottom > top ==> y == bottom,
                decreases top + 1 - y + (GRID_HEIGHT - bottom),
            {
                if self.module[y][x] != Tile::Air {
                    out.push((self.module[y][x], x, y));
                }
                assert(out@ =~= column_start + column_hits(
                    tiles,
                    x as int,
                    bottom as int,
                    y + 1,
                ));
                y += 1;
            }
            assert(out@ =~= old(out)@ + region_hits(
                tiles,
                left as int,
                x + 1,
                bottom as int,
                top + 1,
            ));
            x += 1;
        }
    }

    /// Every entry of `hits` names a cell of the grid and holds that cell's
    /// tile, which is not air.
    pub open spec fn members_ok(&self, hits: Seq<TileAt>) -> bool {
        forall|k: int|
            0 <= k < hits.len() ==> {
                let hit = #[trigger] hits[k];
                &&& hit.1 < GRID_WIDTH
                &&& hit.2 < GRID_HEIGHT
                &&& hit.0 != Tile::Air
                &&& hit.0 == self.tiles()[hit.2 as int][hit.1 as int]
            }
    }

    /// Every tile of an answer lies in the grid, is the tile of its cell and
    /// is not air.
    pub proof fn lemma_overlapping_members(&self, rect: Rect)
        ensures
            self.members_ok(self.overlapping(rect)),
    {
        if self.answers(rect) {
            lemma_region_hits_members(
                self.tiles(),
                cell_index(self.grid_x(rect.x as int), GRID_WIDTH as int),
                cell_index(self.grid_x(rect.x + rect.w), GRID_WIDTH as int) + 1,
                cell_index(self.grid_y(rect.y as int), GRID_HEIGHT as int),
                cell_index(self.grid_y(rect.y + rect.h), GRID_HEIGHT as int) + 1,
            );
        }
    }

    /// The obstacle that the tile in column `x`, row `y` puts into the world.
    pub open spec fn world_collider(&self, tile: TileAt) -> Rect {
        match tile.0 {
            Tile::Leave => no_collision_spec(),
            _ => Rect {
                x: self.world_coords(tile.1 as int, tile.2 as int).x,
                y: self.world_coords(tile.1 as int, tile.2 as int).y,
                w: TILE_SIZE,
                h: TILE_SIZE,
            },
        }
    }

    /// The obstacle of a tile other than air: solid and start tiles stand as
    /// a square of one tile at their place; a leave tile stands nowhere any
    /// mover can be.
    pub fn to_world_collider(&self, tile: TileAt) -> (r: WorldRect)
        requires
            self.wf(),
            tile.0 != Tile::Air,
            tile.1 < GRID_WIDTH,
            tile.2 < GRID_HEIGHT,
        ensures
            r == self.world_collider(tile),
            r.collider_wf(),
    {
        match tile.0 {
            Tile::Leave => no_collision(),
            _ => {
                let tile_point = self.to_world_coords((tile.1, tile.2));
                rect_from_point(tile_point, TILE_SIZE, TILE_SIZE)
            },
        }
    }
}

/// Index of the cell that holds the grid-space coordinate `v` on an axis of
/// `cells` cells; coordinates off the axis belong to the nearest cell.
pub open spec fn cell_index(v: int, cells: int) -> int {
    clamp_spec(0, (cells - 1) * GRID_TO_WORLD, v) / (GRID_TO_WORLD as int)
}

pub fn to_cell(v: WorldCoord, cells: usize) -> (i: usize)
    requires
        0 < cells <= GRID_WIDTH,
    ensures
        i == cell_index(v as int, cells as int),
        i < cells,
{
    let last: WorldCoord = (cells as i64 - 1) * GRID_TO_WORLD;
    let c: WorldCoord = clamp(0, last, v);
    (c / GRID_TO_WORLD) as usize
}

/// Tiles other than air in column `x`, rows `lo .. hi`, from the bottom.
pub open spec fn column_hits(tiles: Seq<Seq<Tile>>, x: int, lo: int, hi: int) -> Seq<TileAt>
    decreases hi - lo,
{
    if hi <= lo {
        Seq::empty()
    } else {
        let below = column_hits(tiles, x, lo, hi - 1);
        let tile = tiles[hi - 1][x];
        if tile == Tile::Air {
            below
        } else {
            below.push((tile, x as usize, (hi - 1) as usize))
        }
    }
}

/// Tiles other than air in columns `left .. right`, rows `lo .. hi`, column
/// by column from the left, each column from the bottom.
pub open spec fn region_hits(
    tiles: Seq<Seq<Tile>>,
    left: int,
    right: int,
    lo: int,
    hi: int,
) -> Seq<TileAt>
    decreases right - left,
{
    if right <= left {
        Seq::empty()
    } else {
        region_hits(tiles, left, right - 1, lo, hi) + column_hits(tiles, right - 1, lo, hi)
    }
}

/// Every entry of `hits` lies in columns `left .. right` and rows `lo .. hi`
/// and holds its cell's tile, which is not air.
pub open spec fn hits_within(
    tiles: Seq<Seq<Tile>>,
    hits: Seq<TileAt>,
    left: int,
    right: int,
    lo: int,
    hi: int,
) -> bool {
    forall|k: int|
        0 <= k < hits.len() ==> {
            let hit = #[trigger] hits[k];
            &&& left <= hit.1 < right
            &&& lo <= hit.2 < hi
            &&& hit.0 != Tile::Air
            &&& hit.0 == tiles[hit.2 as int][hit.1 as int]
        }
}

pub proof fn lemma_column_hits_members(tiles: Seq<Seq<Tile>>, x: int, lo: int, hi: int)
    requires
        0 <= x < GRID_WIDTH,
        0 <= lo,
        hi <= GRID_HEIGHT,
    ensures
        hits_within(tiles, column_hits(tiles, x, lo, hi), x, x + 1, lo, hi),
    decreases hi - lo,
{
    if hi > lo {
        lemma_column_hits_members(tiles, x, lo, hi - 1);
    }
}

pub proof fn lemma_region_hits_members(
    tiles: Seq<Seq<Tile>>,
    left: int,
    right: int,
    lo: int,
    hi: int,
)
    requires
        0 <= left,
        right <= GRID_WIDTH,
        0 <= lo,
        hi <= GRID_HEIGHT,
    ensures
        hits_within(tiles, region_hits(tiles, left, right, lo, hi), left, right, lo, hi),
    decreases right - left,
{
    if right > left {
        lemma_region_hits_members(tiles, left, right - 1, lo, hi);
        lemma_column_hits_members(tiles, right - 1, lo, hi);
    }
}

/// The grid after one point of damage to each of `cells` in turn, given as
/// `(column, row)`.
pub open spec fn damaged_each(grid: Grid, cells: Seq<(int, int)>) -> Grid
    decreases cells.len(),
{
    if cells.len() == 0 {
        grid
    } else {
        damaged_each(grid, cells.drop_last()).damaged(cells.last().0, cells.last().1)
    }
}

/// Every cell of `cells` lies in a grid.
pub open spec fn cells_in_grid(cells: Seq<(int, int)>) -> bool {
    forall|k: int|
        0 <= k < cells.len() ==> 0 <= (#[trigger] cells[k]).0 < GRID_WIDTH && 0 <= cells[k].1
            < GRID_HEIGHT
}

/// Damage keeps a grid well formed, so that its count of living tiles stays
/// the number of its tiles other than air, and raises the health of no
/// tile.
pub proof fn lemma_damaged(grid: Grid, x: int, y: int)
    requires
        grid.wf(),
        0 <= x < GRID_WIDTH,
        0 <= y < GRID_HEIGHT,
    ensures
        grid.damaged(x, y).wf(),
        grid.damaged(x, y).tiles_alive == count_non_air(grid.damaged(x, y).tiles()),
        grid.damaged(x, y).tiles_alive <= grid.tiles_alive,
        grid.damaged(x, y).tiles() == damage_at(grid.tiles(), x, y),
        forall|i: int, j: int|
            0 <= i < GRID_WIDTH && 0 <= j < GRID_HEIGHT ==> (#[trigger] grid.damaged(
                x,
                y,
            ).tiles()[j][i]).health() <= grid.tiles()[j][i].health(),
{
    lemma_damage_module(grid.module, x, y);
    lemma_damage_count(grid.tiles(), x, y);
}

/// Over any sequence of damage the health of every tile only falls, never
/// below zero, and the count of living tiles stays the number of tiles
/// other than air.
pub proof fn lemma_damaged_each(grid: Grid, cells: Seq<(int, int)>)
    requires
        grid.wf(),
        cells_in_grid(cells),
    ensures
        damaged_each(grid, cells).wf(),
        damaged_each(grid, cells).tiles_alive == count_non_air(damaged_each(grid, cells).tiles()),
        damaged_each(grid, cells).tiles_alive <= grid.tiles_alive,
        forall|i: int, j: int|
            0 <= i < GRID_WIDTH && 0 <= j < GRID_HEIGHT ==> 0 <= (#[trigger] damaged_each(
                grid,
                cells,
            ).tiles()[j][i]).health() <= grid.tiles()[j][i].health(),
    decreases cells.len(),
{
    if cells.len() > 0 {
        let front = cells.drop_last();
        assert(cells_in_grid(front)) by {
            assert forall|k: int| 0 <= k < front.len() implies 0 <= (#[trigger] front[k]).0
                < GRID_WIDTH && 0 <= front[k].1 < GRID_HEIGHT by {
                assert(front[k] == cells[k]);
            }
        }
        lemma_damaged_each(grid, front);
        let before = damaged_each(grid, front);
        lemma_damaged(before, cells.last().0, cells.last().1);
        let after = before.damaged(cells.last().0, cells.last().1);
        assert(after.tiles_alive <= before.tiles_alive);
        assert forall|i: int, j: int| 0 <= i < GRID_WIDTH && 0 <= j < GRID_HEIGHT implies 0 <= (
        #[trigger] after.tiles()[j][i]).health() <= grid.tiles()[j][i].health() by {
            assert(after.tiles()[j][i].health() <= before.tiles()[j][i].health());
            assert(before.tiles()[j][i].health() <= grid.tiles()[j][i].health());
        }
    }
}

/// Where a tile that blocks nothing stands: an empty rectangle that no mover
/// within the coordinate limit can reach.
pub open spec fn no_collision_spec() -> Rect {
    Rect { x: (-2 * COORD_LIMIT) as i64, y: (-2 * COORD_LIMIT) as i64, w: 0, h: 0 }
}

#[verifier::when_used_as_spec(no_collision_spec)]
pub fn no_collision() -> (r: Rect)
    ensures
        r == no_collision_spec(),
        r.collider_wf(),
{
    Rect { x: -2 * COORD_LIMIT, y: -2 * COORD_LIMIT, w: 0, h: 0 }
}

} // verus!
