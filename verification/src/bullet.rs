//! Bullets: short-lived projectiles that fly straight and die on what they
//! hit.

use vstd::prelude::*;
use crate::collide::grids_wf;
use crate::config::PlayerConfig;
use crate::grid::{lemma_damaged, Grid, Tile, TileAt, GRID_HEIGHT, GRID_WIDTH};
use crate::math::{
    lemma_div_toward_zero_bounds, per_tick, rate_per_tick, saturate, saturating_sum, Point2, Rect,
    Vector2, WorldCoord, TICKS_PER_SECOND,
};
use crate::player::{Player, Team};
use crate::sound::SoundEffect;

verus! {

pub const BULLET_WIDTH: WorldCoord = 200;

pub const BULLET_HEIGHT: WorldCoord = 200;

/// A bullet left of this is out of the world.
pub const BULLET_MIN_X: WorldCoord = -1000;

/// A bullet right of this is out of the world.
pub const BULLET_MAX_X: WorldCoord = 33_000;

#[derive(Debug, Clone, Copy, PartialEq, Eq, Structural)]
pub struct Bullet {
    pub pos: Point2,
    pub vel: Vector2,
    pub team: Team,
    pub is_alive: bool,
}

impl Bullet {
    /// Position and velocity are within the coordinate limit.
    pub open spec fn wf(&self) -> bool {
        self.pos.wf() && self.vel.wf()
    }

    pub fn new(pos: Point2, vel: Vector2, team: Team) -> (bullet: Self)
        ensures
            bullet == (Bullet { pos, vel, team, is_alive: true }),
    {
        Bullet { pos, vel, team, is_alive: true }
    }

    /// The space that the bullet takes up.
    pub open spec fn spec_rect(&self) -> Rect {
        Rect {
            x: (self.pos.x - BULLET_WIDTH / 2) as i64,
            y: (self.pos.y + BULLET_HEIGHT / 2) as i64,
            w: BULLET_WIDTH,
            h: BULLET_HEIGHT,
        }
    }

    #[verifier::when_used_as_spec(spec_rect)]
    pub fn rect(&self) -> (r: Rect)
        requires
            self.wf(),
        ensures
            r == self.spec_rect(),
            r.wf(),
    {
        Rect {
            x: self.pos.x - BULLET_WIDTH / 2,
            y: self.pos.y + BULLET_HEIGHT / 2,
            w: BULLET_WIDTH,
            h: BULLET_HEIGHT,
        }
    }

    /// The bullet after it flew for one tick: moved by its velocity, and dead
    /// if that took it out of the world to the left or right.
    pub open spec fn advanced(&self) -> Bullet {
        let x = saturate(self.pos.x + per_tick(self.vel.x as int));
        Bullet {
            pos: Point2 { x: x as i64, y: saturate(self.pos.y + per_tick(self.vel.y as int)) as i64 },
            is_alive: self.is_alive && BULLET_MIN_X <= x <= BULLET_MAX_X,
            ..*self
        }
    }

    /// The bullet strikes the player in `slot`: it overlaps a player of
    /// another team.
    pub open spec fn strikes(&self, slot: Option<Player>, config: &PlayerConfig) -> bool {
        slot matches Some(player) && self.spec_rect().spec_overlaps(&player.spec_rect(config))
            && self.team != player.team
    }

    /// The slot after the bullet passed: a player that it strikes takes one
    /// point of damage.
    pub open spec fn slot_after_strike(&self, slot: Option<Player>, config: &PlayerConfig) -> Option<
        Player,
    > {
        match slot {
            Some(player) => if self.strikes(slot, config) {
                Some(player.after_damage())
            } else {
                slot
            },
            None => None,
        }
    }

    /// The bullet strikes some player.
    pub open spec fn strikes_any(&self, players: Seq<Option<Player>>, config: &PlayerConfig) -> bool {
        exists|i: int| 0 <= i < players.len() && self.strikes(#[trigger] players[i], config)
    }

    /// The slots after the bullet passed.
    pub open spec fn players_after_strikes(
        &self,
        players: Seq<Option<Player>>,
        config: &PlayerConfig,
    ) -> Seq<Option<Player>> {
        players.map_values(|slot: Option<Player>| self.slot_after_strike(slot, config))
    }

    /// The bullet after a tick in which it flew, passed the players and then
    /// met the terrain as it stood in `grids`: it lives on only if it was
    /// alive, stayed in the world and struck neither a player nor a tile.
    pub open spec fn after_fixed_update(
        &self,
        grids: Seq<Grid>,
        players: Seq<Option<Player>>,
        config: &PlayerConfig,
    ) -> Bullet {
        let flown = self.advanced();
        Bullet {
            is_alive: flown.is_alive && !flown.strikes_any(players, config) && !hits_terrain(
                grids,
                flown.spec_rect(),
            ),
            ..flown
        }
    }

    fn advance(&mut self)
        requires
            old(self).wf(),
        ensures
            *final(self) == old(self).advanced(),
            final(self).wf(),
    {
        self.pos.x = saturating_sum(self.pos.x, rate_per_tick(self.vel.x));
        self.pos.y = saturating_sum(self.pos.y, rate_per_tick(self.vel.y));

        if self.pos.x < BULLET_MIN_X || self.pos.x > BULLET_MAX_X {
            self.is_alive = false;
        }
    }

    fn strike_players(&mut self, players: &mut Vec<Option<Player>>, config: &PlayerConfig)
        requires
            old(self).wf(),
            config.wf(),
            players_wf(old(players)@),
        ensures
            *final(self) == (Bullet {
                is_alive: old(self).is_alive && !old(self).strikes_any(old(players)@, config),
                ..*old(self)
            }),
            final(players)@ == old(self).players_after_strikes(old(players)@, config),
            players_wf(final(players)@),
    {
        let ghost slots = players@;
        let ghost shooter = *self;
        let mut i: usize = 0;
        while i < players.len()
            invariant
                i <= players.len(),
                players@.len() == slots.len(),
                shooter.wf(),
                config.wf(),
                players_wf(players@),
                *self == (Bullet {
                    is_alive: shooter.is_alive && !shooter.strikes_any(slots.take(i as int), config),
                    ..shooter
                }),
                forall|j: int|
                    0 <= j < i ==> #[trigger] players@[j] == shooter.slot_after_strike(
                        slots[j],
                        config,
                    ),
                forall|j: int| i <= j < slots.len() ==> #[trigger] players@[j] == slots[j],
            decreases players.len() - i,
        {
            let ghost seen = shooter.strikes_any(slots.take(i as int), config);
            let slot = players[i];
            let mut struck: bool = false;
            if let Some(mut player) = slot {
                if self.rect().overlaps(&player.rect(config)) && self.team != player.team {
                    player.damage();
                    players.set(i, Some(player));
                    self.is_alive = false;
                    struck = true;
                }
            }
            proof {
                assert(struck == shooter.strikes(slots[i as int], config));
                let now = slots.take(i + 1);
                assert(now[i as int] == slots[i as int]);
                if seen {
                    let j = choose|j: int|
                        0 <= j < i && shooter.strikes(#[trigger] slots.take(i as int)[j], config);
                    assert(now[j] == slots.take(i as int)[j]);
                }
                if shooter.strikes_any(now, config) && !struck {
                    let j = choose|j: int|
                        0 <= j < i + 1 && shooter.strikes(#[trigger] now[j], config);
                    assert(slots.take(i as int)[j] == now[j]);
                }
                assert(shooter.strikes_any(now, config) == (seen || struck));
            }
            i += 1;
        }
        assert(slots.take(i as int) =~= slots);
        assert(players@ =~= shooter.players_after_strikes(slots, config));
    }

    fn hit_tiles(
        &mut self,
        grid: &mut Grid,
        slot: &mut Option<Player>,
        sounds: &mut Vec<SoundEffect>,
        in_menu: bool,
    )
        requires
            old(self).wf(),
            old(grid).wf(),
        ensures
            final(grid).wf(),
            *final(grid) == grid_after_bullet(*old(grid), old(self).spec_rect()),
            final(sounds)@ == old(sounds)@ + hit_sounds(
                old(grid).overlapping(old(self).spec_rect()),
            ),
            *final(slot) == slot_after_hits(
                *old(slot),
                old(grid).overlapping(old(self).spec_rect()),
                in_menu,
            ),
            slot_wf(*old(slot)) ==> slot_wf(*final(slot)),
            *final(self) == (Bullet {
                is_alive: old(self).is_alive && old(grid).overlapping(
                    old(self).spec_rect(),
                ).len() == 0,
                ..*old(self)
            }),
    {
        let mut tiles: Vec<TileAt> = Vec::new();
        grid.overlapping_tiles(self.rect(), &mut tiles);
        let ghost hits = grid.overlapping(self.spec_rect());
        assert(tiles@ =~= hits);
        proof {
            grid.lemma_overlapping_members(self.spec_rect());
        }
        let mut t: usize = 0;
        while t < tiles.len()
            invariant
                t <= tiles.len(),
                tiles@ == hits,
                old(grid).members_ok(hits),
                grid.wf(),
                hits == old(grid).overlapping(old(self).spec_rect()),
                *grid == grid_after_hits(*old(grid), hits.take(t as int)),
                sounds@ == old(sounds)@ + hit_sounds(hits.take(t as int)),
                *slot == slot_after_hits(*old(slot), hits.take(t as int), in_menu),
                slot_wf(*old(slot)) ==> slot_wf(*slot),
                *self == (Bullet { is_alive: old(self).is_alive && t == 0, ..*old(self) }),
            decreases tiles.len() - t,
        {
            let (tile, x, y) = tiles[t];
            assert(hits.take(t + 1).drop_last() =~= hits.take(t as int));
            assert(hits.take(t + 1).last() == hits[t as int]);
            match tile {
                Tile::Solid(health) => {
                    grid.damage_tile(x, y);
                    grid.damage_tile(x, y);
                    self.is_alive = false;
                    let sound_effect = if health == 0 {
                        SoundEffect::BreakBlock
                    } else if health <= 2 {
                        SoundEffect::DamageBlockMore
                    } else {
                        SoundEffect::DamageBlock
                    };
                    sounds.push(sound_effect);
                    assert(sounds@ =~= old(sounds)@ + hit_sounds(hits.take(t + 1)));
                },
                Tile::Start(_) => {
                    if let Some(player) = *slot {
                        if in_menu {
                            *slot = Some(Player { ready: !player.ready, ..player });
                        }
                    }
                    self.is_alive = false;
                },
                Tile::Leave => {
                    if in_menu {
                        *slot = None;
                    }
                    self.is_alive = false;
                },
                Tile::Air => {},
            }
            t += 1;
        }
        assert(hits.take(t as int) =~= hits);
    }

    /// Runs one tick of the bullet: it flies, damages each player of another
    /// team that it overlaps, and then meets the terrain, grid by grid. Each
    /// solid tile that it reaches is damaged twice and sounds; start and
    /// leave tiles act on the slot of the bullet's own team while `in_menu`
    /// holds. Whatever it strikes kills the bullet.
    pub fn fixed_update(
        &mut self,
        sounds: &mut Vec<SoundEffect>,
        grids: &mut Vec<Grid>,
        players: &mut Vec<Option<Player>>,
        in_menu: bool,
        config: &PlayerConfig,
    )
        requires
            old(self).wf(),
            config.wf(),
            grids_wf(old(grids)@),
            players_wf(old(players)@),
            old(self).team.0 < old(players)@.len(),
        ensures
            final(self).wf(),
            *final(self) == old(self).after_fixed_update(old(grids)@, old(players)@, config),
            final(players)@ == players_after(
                old(self).advanced(),
                old(grids)@,
                old(players)@,
                in_menu,
                config,
            ),
            players_wf(final(players)@),
            final(grids)@ == grids_after_bullet(old(grids)@, old(self).advanced().spec_rect()),
            grids_wf(final(grids)@),
            final(sounds)@ == old(sounds)@ + grids_hit_sounds(
                old(grids)@,
                old(self).advanced().spec_rect(),
            ),
    {
        self.advance();
        let ghost flown = *self;
        let ghost rect = flown.spec_rect();
        self.strike_players(players, config);
        let ghost struck = players@;
        let ghost terrain = grids@;
        let own: usize = self.team.0 as usize;
        let mut hit: bool = false;
        let alive: bool = self.is_alive;
        let mut g: usize = 0;
        assert(terrain.take(0) =~= Seq::<Grid>::empty());
        assert(sounds@ =~= old(sounds)@ + grids_hit_sounds(terrain.take(0), rect));
        while g < grids.len()
            invariant
                g <= grids.len(),
                grids@.len() == terrain.len(),
                grids_wf(grids@),
                grids_wf(terrain),
                own < players@.len(),
                players@.len() == struck.len(),
                players_wf(players@),
                flown.wf(),
                rect == flown.spec_rect(),
                *self == (Bullet { is_alive: alive && !hit, ..flown }),
                hit == hits_terrain(terrain.take(g as int), rect),
                forall|j: int| g <= j < terrain.len() ==> #[trigger] grids@[j] == terrain[j],
                forall|j: int|
                    0 <= j < g ==> #[trigger] grids@[j] == grid_after_bullet(terrain[j], rect),
                sounds@ == old(sounds)@ + grids_hit_sounds(terrain.take(g as int), rect),
                players@ == struck.update(
                    own as int,
                    slot_after_grids(struck[own as int], terrain.take(g as int), rect, in_menu),
                ),
            decreases grids.len() - g,
        {
            let ghost seen = hit;
            let ghost before = terrain.take(g as int);
            let mut probe = Bullet { is_alive: true, ..*self };
            let mut slot = players[own];
            let ghost sounds_before = sounds@;
            probe.hit_tiles(&mut grids[g], &mut slot, sounds, in_menu);
            players.set(own, slot);
            if !probe.is_alive {
                self.is_alive = false;
                hit = true;
            }
            proof {
                let now = terrain.take(g + 1);
                assert(now.drop_last() =~= before);
                assert(now.last() == terrain[g as int]);
                assert(probe.is_alive == (terrain[g as int].overlapping(rect).len() == 0));
                if seen {
                    let j = choose|j: int|
                        0 <= j < before.len() && (#[trigger] before[j]).overlapping(rect).len() > 0;
                    assert(now[j] == before[j]);
                }
                if hits_terrain(now, rect) && probe.is_alive {
                    let j = choose|j: int|
                        0 <= j < now.len() && (#[trigger] now[j]).overlapping(rect).len() > 0;
                    assert(before[j] == now[j]);
                }
                assert(hits_terrain(now, rect) == (seen || !probe.is_alive));
                assert(sounds@ =~= old(sounds)@ + grids_hit_sounds(now, rect));
                assert(players@ =~= struck.update(
                    own as int,
                    slot_after_grids(struck[own as int], now, rect, in_menu),
                ));
            }
            g += 1;
        }
        assert(terrain.take(g as int) =~= terrain);
        assert(grids@ =~= grids_after_bullet(terrain, rect));
        assert(players@ =~= players_after(flown, terrain, old(players)@, in_menu, config));
    }
}

/// A bullet that starts two world units right of the world's right edge and
/// does not fly left at sixty world units a second or more is dead after
/// its tick, whatever else it meets.
pub proof fn lemma_leaves_world(
    bullet: Bullet,
    grids: Seq<Grid>,
    players: Seq<Option<Player>>,
    config: &PlayerConfig,
)
    requires
        bullet.wf(),
        bullet.pos.x == 34_000,
        bullet.vel.x > -60_000,
    ensures
        !bullet.after_fixed_update(grids, players, config).is_alive,
{
    lemma_div_toward_zero_bounds(bullet.vel.x as int, TICKS_PER_SECOND as int);
    if bullet.vel.x < 0 {
        let n: int = -bullet.vel.x;
        assert(n / 60 < 1000);
    }
}

/// A bullet that is outside the world to the left or right after it flew is
/// dead after its tick.
pub proof fn lemma_out_of_world_dies(
    bullet: Bullet,
    grids: Seq<Grid>,
    players: Seq<Option<Player>>,
    config: &PlayerConfig,
)
    requires
        bullet.advanced().pos.x < BULLET_MIN_X || bullet.advanced().pos.x > BULLET_MAX_X,
    ensures
        !bullet.after_fixed_update(grids, players, config).is_alive,
{
}

/// A bullet takes two health from the one solid tile it meets: a tile of
/// more than two health keeps the rest, a tile of one or two turns to air,
/// and no other tile changes.
pub proof fn lemma_hit_takes_two(grid: Grid, hit: TileAt)
    requires
        grid.wf(),
        hit.1 < GRID_WIDTH,
        hit.2 < GRID_HEIGHT,
        hit.0 is Solid,
        hit.0 == grid.tiles()[hit.2 as int][hit.1 as int],
    ensures
        grid_after_hits(grid, seq![hit]).wf(),
        grid_after_hits(grid, seq![hit]).tiles()[hit.2 as int][hit.1 as int] == (if hit.0->Solid_0
            > 2 {
            Tile::Solid((hit.0->Solid_0 - 2) as u8)
        } else if hit.0->Solid_0 == 0 {
            hit.0
        } else {
            Tile::Air
        }),
        forall|x: int, y: int|
            0 <= x < GRID_WIDTH && 0 <= y < GRID_HEIGHT && !(x == hit.1
                && y == hit.2) ==> (#[trigger] grid_after_hits(grid, seq![hit]).tiles()[y][x])
                == grid.tiles()[y][x],
{
    let hits = seq![hit];
    assert(hits.drop_last() =~= Seq::<TileAt>::empty());
    assert(grid_after_hits(grid, hits.drop_last()) == grid);
    let once = grid.damaged(hit.1 as int, hit.2 as int);
    lemma_damaged(grid, hit.1 as int, hit.2 as int);
    lemma_damaged(once, hit.1 as int, hit.2 as int);
}

/// Every player in `players` is well formed.
pub open spec fn players_wf(players: Seq<Option<Player>>) -> bool {
    forall|i: int| 0 <= i < players.len() ==> slot_wf(#[trigger] players[i])
}

/// The player in `slot`, if there is one, is well formed.
pub open spec fn slot_wf(slot: Option<Player>) -> bool {
    slot matches Some(player) ==> player.wf()
}

/// The grid after a bullet met `hits`: each solid tile among them took two
/// points of damage, one hit after the other.
pub open spec fn grid_after_hits(grid: Grid, hits: Seq<TileAt>) -> Grid
    decreases hits.len(),
{
    if hits.len() == 0 {
        grid
    } else {
        let before = grid_after_hits(grid, hits.drop_last());
        let hit = hits.last();
        if hit.0 is Solid {
            before.damaged(hit.1 as int, hit.2 as int).damaged(hit.1 as int, hit.2 as int)
        } else {
            before
        }
    }
}

/// The grid after a bullet that takes up `rect` met it: every solid tile in
/// the cells that `rect` reaches took two points of damage.
pub open spec fn grid_after_bullet(grid: Grid, rect: Rect) -> Grid {
    grid_after_hits(grid, grid.overlapping(rect))
}

/// The grids after a bullet that takes up `rect` met them.
pub open spec fn grids_after_bullet(grids: Seq<Grid>, rect: Rect) -> Seq<Grid> {
    grids.map_values(|grid: Grid| grid_after_bullet(grid, rect))
}

/// The sound of a bullet on a solid tile that had the given health: a tile
/// without health breaks, a tile of one or two is damaged more, any other
/// is damaged.
pub open spec fn hit_sound(health: u8) -> SoundEffect {
    if health == 0 {
        SoundEffect::BreakBlock
    } else if health <= 2 {
        SoundEffect::DamageBlockMore
    } else {
        SoundEffect::DamageBlock
    }
}

/// The sounds of a bullet on `hits`: one for each solid tile, in order.
pub open spec fn hit_sounds(hits: Seq<TileAt>) -> Seq<SoundEffect>
    decreases hits.len(),
{
    if hits.len() == 0 {
        Seq::empty()
    } else {
        let before = hit_sounds(hits.drop_last());
        match hits.last().0 {
            Tile::Solid(health) => before.push(hit_sound(health)),
            _ => before,
        }
    }
}

/// The slot of the shooter's team after its bullet met `hits`. While
/// `in_menu` holds, each start tile flips the readiness of the player in the
/// slot and a leave tile empties the slot; outside the menu nothing
/// happens to it.
pub open spec fn slot_after_hits(slot: Option<Player>, hits: Seq<TileAt>, in_menu: bool) -> Option<
    Player,
>
    decreases hits.len(),
{
    if hits.len() == 0 {
        slot
    } else {
        let before = slot_after_hits(slot, hits.drop_last(), in_menu);
        match hits.last().0 {
            Tile::Start(_) => match before {
                Some(player) => if in_menu {
                    Some(Player { ready: !player.ready, ..player })
                } else {
                    before
                },
                None => None,
            },
            Tile::Leave => if in_menu {
                None
            } else {
                before
            },
            _ => before,
        }
    }
}

/// Some grid has a tile in the cells that `rect` reaches.
pub open spec fn hits_terrain(grids: Seq<Grid>, rect: Rect) -> bool {
    exists|i: int| 0 <= i < grids.len() && (#[trigger] grids[i]).overlapping(rect).len() > 0
}

/// The sounds of a bullet on the grids, grid by grid.
pub open spec fn grids_hit_sounds(grids: Seq<Grid>, rect: Rect) -> Seq<SoundEffect>
    decreases grids.len(),
{
    if grids.len() == 0 {
        Seq::empty()
    } else {
        grids_hit_sounds(grids.drop_last(), rect) + hit_sounds(grids.last().overlapping(rect))
    }
}

/// The slot of the shooter's team after its bullet met the grids, grid by
/// grid.
pub open spec fn slot_after_grids(
    slot: Option<Player>,
    grids: Seq<Grid>,
    rect: Rect,
    in_menu: bool,
) -> Option<Player>
    decreases grids.len(),
{
    if grids.len() == 0 {
        slot
    } else {
        slot_after_hits(
            slot_after_grids(slot, grids.drop_last(), rect, in_menu),
            grids.last().overlapping(rect),
            in_menu,
        )
    }
}

/// The slots after the bullet `flown`, already moved, passed the players and
/// met the grids: every player it strikes is damaged, and then the slot of
/// its own team is acted on by the start and leave tiles it reached.
pub open spec fn players_after(
    flown: Bullet,
    grids: Seq<Grid>,
    players: Seq<Option<Player>>,
    in_menu: bool,
    config: &PlayerConfig,
) -> Seq<Option<Player>> {
    let struck = flown.players_after_strikes(players, config);
    struck.update(
        flown.team.0 as int,
        slot_after_grids(struck[flown.team.0 as int], grids, flown.spec_rect(), in_menu),
    )
}

} // verus!
