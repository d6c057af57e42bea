//! The world: the stack of grids, the player slots and the bullets, and the
//! frame that drives them.

use vstd::prelude::*;
use vstd::seq_lib::group_to_multiset_ensures;
use crate::bullet::{
    grids_after_bullet, grids_hit_sounds, players_after, players_wf, slot_after_grids,
    slot_after_hits, slot_wf, Bullet,
};
use crate::collide::grids_wf;
use crate::config::{GridConfig, PlayerConfig, FULL_RATIO, WORLD_HEIGHT};
use crate::grid::{
    Grid, GridCoord, GridState, Module, TileAt, GRID_HEIGHT, GRID_HEIGHT_COORD,
    GRID_OFFSET_LIMIT, GRID_WIDTH,
};
use crate::math::{clamp, clamp_spec, Rect, WorldCoord};
use crate::random::{pick, random_below, shuffle};
use crate::spawn::{has_spawn, lowest_spawn};
use crate::player::{
    arrow_controls, joycon_controls, wasd_controls, Axis, Button, Controls, Keycode, PadAxis,
    PadButton, Player, Team,
};
use crate::sound::SoundEffect;

verus! {

/// Grids in the stack.
pub const GRID_COUNT: usize = 3;

/// Slots for players.
pub const MAX_PLAYERS: usize = 4;

/// Players that must have joined before a game starts.
pub const MIN_PLAYERS: usize = 2;

#[derive(Debug, Clone)]
pub struct MainState {
    /// Whether the window has the focus; nothing moves without it.
    pub focused: bool,
    /// Whether the players are still gathering.
    pub in_menu: bool,
    /// The grids, lowest first.
    pub grids: Vec<Grid>,
    /// The layouts that new grids are made from.
    pub modules: Vec<Module>,
    /// The player slots; the player in a slot is of the slot's team.
    pub players: Vec<Option<Player>>,
    pub bullets: Vec<Bullet>,
    /// Sounds waiting to be played, oldest first.
    pub sounds: Vec<SoundEffect>,
    pub player_config: PlayerConfig,
    pub grid_config: GridConfig,
}

/// The indices below `upto` of the slots that hold something, ascending.
pub open spec fn occupied<T>(slots: Seq<Option<T>>, upto: int) -> Seq<usize>
    decreases upto,
{
    if upto <= 0 {
        Seq::empty()
    } else if slots[upto - 1] is Some {
        occupied(slots, upto - 1).push((upto - 1) as usize)
    } else {
        occupied(slots, upto - 1)
    }
}

pub proof fn lemma_occupied<T>(slots: Seq<Option<T>>, upto: int)
    requires
        0 <= upto <= slots.len(),
        upto <= usize::MAX,
    ensures
        occupied(slots, upto).len() <= upto,
        forall|k: int|
            0 <= k < occupied(slots, upto).len() ==> (#[trigger] occupied(slots, upto)[k]) < upto
                && slots[occupied(slots, upto)[k] as int] is Some,
        forall|i: int|
            0 <= i < upto && slots[i] is Some ==> occupied(slots, upto).contains(i as usize),
    decreases upto,
{
    if upto > 0 {
        lemma_occupied(slots, upto - 1);
        let before = occupied(slots, upto - 1);
        let now = occupied(slots, upto);
        assert forall|k: int| 0 <= k < now.len() implies (#[trigger] now[k]) < upto
            && slots[now[k] as int] is Some by {
            if k < before.len() {
                assert(now[k] == before[k]);
            }
        }
        assert forall|i: int| 0 <= i < upto && slots[i] is Some implies now.contains(
            i as usize,
        ) by {
            if i < upto - 1 {
                let k = choose|k: int| 0 <= k < before.len() && before[k] == i as usize;
                assert(now[k] == i as usize);
            } else {
                assert(now[now.len() - 1] == i as usize);
            }
        }
    }
}

/// The indices of the slots that hold something, ascending.
pub fn somes_mut<T>(slots: &Vec<Option<T>>) -> (indices: Vec<usize>)
    ensures
        indices@ == occupied(slots@, slots@.len() as int),
        forall|k: int|
            0 <= k < indices@.len() ==> (#[trigger] indices@[k]) < slots@.len()
                && slots@[indices@[k] as int] is Some,
{
    let mut indices: Vec<usize> = Vec::new();
    let mut i: usize = 0;
    while i < slots.len()
        invariant
            i <= slots.len(),
            indices@ == occupied(slots@, i as int),
        decreases slots.len() - i,
    {
        if slots[i].is_some() {
            indices.push(i);
        }
        i += 1;
    }
    proof {
        lemma_occupied(slots@, slots@.len() as int);
    }
    indices
}

/// The first empty slot.
pub open spec fn first_free(players: Seq<Option<Player>>, upto: int) -> Option<int>
    decreases upto,
{
    if upto <= 0 {
        None
    } else {
        match first_free(players, upto - 1) {
            Some(i) => Some(i),
            None => if players[upto - 1] is None {
                Some(upto - 1)
            } else {
                None
            },
        }
    }
}

/// The controls that a player gets who joins by pressing `btn`: the up arrow
/// brings the arrow keys, W brings W, A and D, and the A button of a
/// controller brings that controller. No other button lets anyone join.
pub open spec fn join_controls(btn: Button) -> Option<Controls> {
    match btn {
        Button::Keyboard(Keycode::Up) => Some(arrow_controls()),
        Button::Keyboard(Keycode::W) => Some(wasd_controls()),
        Button::Controller(id, PadButton::A) => Some(
            Controls {
                lr: Axis::Analog(id, PadAxis::LeftX),
                jump: Button::Controller(id, PadButton::A),
                shoot: Button::Controller(id, PadButton::B),
            },
        ),
        _ => None,
    }
}

/// The slots after each player was told of the button.
pub open spec fn players_after_button(
    players: Seq<Option<Player>>,
    btn: Button,
    pressed: bool,
) -> Seq<Option<Player>> {
    players.map_values(
        |slot: Option<Player>|
            match slot {
                Some(player) => Some(player.after_button(btn, pressed)),
                None => None,
            },
    )
}

/// The slot holds a player that acts on `btn`.
pub open spec fn slot_listens(slot: Option<Player>, btn: Button) -> bool {
    match slot {
        Some(player) => player.listens_to(btn),
        None => false,
    }
}

/// Some player acts on `btn`.
pub open spec fn anyone_listens(players: Seq<Option<Player>>, btn: Button) -> bool {
    exists|i: int| 0 <= i < players.len() && slot_listens(#[trigger] players[i], btn)
}

/// The slots after a press of `btn` that nobody acts on: if the button lets
/// someone join and a slot is free, a new player of the slot's team sits in
/// the first free slot.
pub open spec fn seated(
    players: Seq<Option<Player>>,
    btn: Button,
    config: &PlayerConfig,
) -> Seq<Option<Player>> {
    match (first_free(players, players.len() as int), join_controls(btn)) {
        (Some(i), Some(controls)) => players.update(
            i,
            Some(Player::joined(Team(i as u8), controls, config)),
        ),
        _ => players,
    }
}

/// The slots after each player was told of the axis.
pub open spec fn players_after_axis(
    players: Seq<Option<Player>>,
    axis: Axis,
    value: i16,
) -> Seq<Option<Player>> {
    players.map_values(
        |slot: Option<Player>|
            match slot {
                Some(player) => Some(player.after_axis(axis, value)),
                None => None,
            },
    )
}

/// Every player is ready.
pub open spec fn all_ready(players: Seq<Option<Player>>) -> bool {
    forall|i: int|
        0 <= i < players.len() ==> ((#[trigger] players[i]) matches Some(player) ==> player.ready)
}

/// The player in each slot is of the slot's team.
pub open spec fn seated_by_team(players: Seq<Option<Player>>) -> bool {
    forall|i: int|
        0 <= i < players.len() ==> ((#[trigger] players[i]) matches Some(player)
            ==> player.team.0 == i)
}

/// Every bullet is well formed and of a team that has a slot.
pub open spec fn bullets_wf(bullets: Seq<Bullet>) -> bool {
    forall|i: int|
        0 <= i < bullets.len() ==> (#[trigger] bullets[i]).wf() && bullets[i].team.0 < MAX_PLAYERS
}

impl MainState {
    pub open spec fn wf(&self) -> bool {
        &&& self.grids@.len() == GRID_COUNT
        &&& grids_wf(self.grids@)
        &&& self.modules@.len() > 0
        &&& self.players@.len() == MAX_PLAYERS
        &&& players_wf(self.players@)
        &&& seated_by_team(self.players@)
        &&& bullets_wf(self.bullets@)
        &&& self.player_config.wf()
        &&& self.grid_config.wf()
    }

    /// Everything but the players is as in `other`.
    pub open spec fn same_but_players(&self, other: &MainState) -> bool {
        &&& self.focused == other.focused
        &&& self.in_menu == other.in_menu
        &&& self.grids == other.grids
        &&& self.modules == other.modules
        &&& self.bullets == other.bullets
        &&& self.sounds == other.sounds
        &&& self.player_config == other.player_config
        &&& self.grid_config == other.grid_config
    }

    /// Tells the world that `btn` went down or up. Every player bound to the
    /// button follows it. A press that no player is bound to lets a new
    /// player join, if it is a button to join by and a slot is free.
    pub fn button(&mut self, btn: Button, pressed: bool)
        requires
            old(self).wf(),
        ensures
            final(self).wf(),
            final(self).same_but_players(old(self)),
            final(self).players@ == (if pressed && !anyone_listens(old(self).players@, btn) {
                seated(
                    players_after_button(old(self).players@, btn, pressed),
                    btn,
                    &old(self).player_config,
                )
            } else {
                players_after_button(old(self).players@, btn, pressed)
            }),
    {
        let ghost slots = self.players@;
        let mut found = false;
        let mut i: usize = 0;
        while i < self.players.len()
            invariant
                i <= self.players@.len(),
                self.players@.len() == slots.len(),
                slots.len() == MAX_PLAYERS,
                self.same_but_players(old(self)),
                players_wf(slots),
                seated_by_team(slots),
                found == anyone_listens(slots.take(i as int), btn),
                forall|j: int|
                    0 <= j < i ==> #[trigger] self.players@[j] == players_after_button(
                        slots,
                        btn,
                        pressed,
                    )[j],
                forall|j: int| i <= j < slots.len() ==> #[trigger] self.players@[j] == slots[j],
            decreases self.players.len() - i,
        {
            let ghost seen = found;
            let mut heard = false;
            if let Some(mut player) = self.players[i] {
                heard = player.button(btn, pressed);
                self.players.set(i, Some(player));
                if heard {
                    found = true;
                }
            }
            proof {
                let now = slots.take(i + 1);
                let before = slots.take(i as int);
                assert(now[i as int] == slots[i as int]);
                if seen {
                    let j = choose|j: int|
                        0 <= j < before.len() && slot_listens(#[trigger] before[j], btn);
                    assert(now[j] == before[j]);
                }
                if anyone_listens(now, btn) && !heard {
                    let j = choose|j: int|
                        0 <= j < now.len() && slot_listens(#[trigger] now[j], btn);
                    assert(before[j] == now[j]);
                }
                assert(anyone_listens(now, btn) == (seen || heard));
            }
            i += 1;
        }
        assert(slots.take(i as int) =~= slots);
        assert(self.players@ =~= players_after_button(slots, btn, pressed));
        let ghost told = self.players@;
        assert(players_wf(told) && seated_by_team(told)) by {
            assert forall|j: int| 0 <= j < told.len() implies slot_wf(
                #[trigger] told[j],
            ) && (told[j] matches Some(player) ==> player.team.0 == j) by {
                assert(slot_wf(slots[j]));
            }
        }

        if !found && pressed {
            let join = match btn {
                Button::Keyboard(Keycode::Up) => Some(arrow_controls()),
                Button::Keyboard(Keycode::W) => Some(wasd_controls()),
                Button::Controller(id, PadButton::A) => Some(joycon_controls(id)),
                _ => None,
            };
            assert(join == join_controls(btn));
            let mut free: usize = 0;
            while free < self.players.len() && self.players[free].is_some()
                invariant
                    free <= self.players@.len(),
                    self.players@ == told,
                    first_free(told, free as int) is None,
                decreases self.players.len() - free,
            {
                free += 1;
            }
            proof {
                lemma_first_free_found(told, free as int);
            }
            if free < self.players.len() {
                if let Some(controls) = join {
                    let player = Player::new(Team(free as u8), controls, &self.player_config);
                    self.players.set(free, Some(player));
                    assert(slot_wf(Some(player)));
                }
            }
            assert(self.players@ =~= seated(told, btn, &old(self).player_config));
        }
    }

    /// Tells the world that the axis `axis` of controller `id` reported
    /// `value`, of which `i16::MAX` is full deflection. Every player bound
    /// to the axis follows it.
    pub fn axis(&mut self, axis: PadAxis, id: i32, value: i16)
        requires
            old(self).wf(),
        ensures
            final(self).wf(),
            final(self).same_but_players(old(self)),
            final(self).players@ == players_after_axis(
                old(self).players@,
                Axis::Analog(id, axis),
                value,
            ),
    {
        let ghost slots = self.players@;
        let axis = Axis::Analog(id, axis);
        let mut i: usize = 0;
        while i < self.players.len()
            invariant
                i <= self.players@.len(),
                self.players@.len() == slots.len(),
                slots.len() == MAX_PLAYERS,
                self.same_but_players(old(self)),
                players_wf(slots),
                seated_by_team(slots),
                players_wf(self.players@),
                seated_by_team(self.players@),
                forall|j: int|
                    0 <= j < i ==> #[trigger] self.players@[j] == players_after_axis(
                        slots,
                        axis,
                        value,
                    )[j],
                forall|j: int| i <= j < slots.len() ==> #[trigger] self.players@[j] == slots[j],
            decreases self.players.len() - i,
        {
            if let Some(mut player) = self.players[i] {
                assert(slot_wf(slots[i as int]));
                player.axis(axis, value);
                self.players.set(i, Some(player));
                assert(slot_wf(Some(player)));
            }
            i += 1;
        }
        assert(self.players@ =~= players_after_axis(slots, axis, value));
    }

    /// Leaves the menu once at least two players have joined and all who
    /// have are ready.
    pub fn start_when_ready(&mut self)
        requires
            old(self).wf(),
        ensures
            final(self).wf(),
            final(self).in_menu == (old(self).in_menu && !(all_ready(old(self).players@)
                && occupied(old(self).players@, MAX_PLAYERS as int).len() >= MIN_PLAYERS)),
            final(self).focused == old(self).focused,
            final(self).grids == old(self).grids,
            final(self).modules == old(self).modules,
            final(self).players == old(self).players,
            final(self).bullets == old(self).bullets,
            final(self).sounds == old(self).sounds,
            final(self).player_config == old(self).player_config,
            final(self).grid_config == old(self).grid_config,
    {
        if self.in_menu {
            let seats = somes_mut(&self.players);
            let mut ready = true;
            let mut k: usize = 0;
            while k < seats.len()
                invariant
                    k <= seats@.len(),
                    forall|j: int|
                        0 <= j < seats@.len() ==> (#[trigger] seats@[j]) < self.players@.len()
                            && self.players@[seats@[j] as int] is Some,
                    ready == forall|j: int|
                        0 <= j < k ==> self.players@[(#[trigger] seats@[j]) as int]->Some_0.ready,
                decreases seats.len() - k,
            {
                let seat = seats[k];
                match self.players[seat] {
                    Some(player) => {
                        ready = ready && player.ready;
                    },
                    None => {},
                }
                k += 1;
            }
            proof {
                lemma_occupied(self.players@, MAX_PLAYERS as int);
                if ready {
                    assert forall|i: int| 0 <= i < self.players@.len() implies ((
                    #[trigger] self.players@[i]) matches Some(player) ==> player.ready) by {
                        if self.players@[i] is Some {
                            assert(seats@.contains(i as usize));
                            let j = choose|j: int| 0 <= j < seats@.len() && seats@[j] == i as usize;
                            assert(self.players@[seats@[j] as int]->Some_0.ready);
                        }
                    }
                } else {
                    let j = choose|j: int|
                        0 <= j < seats@.len() && !self.players@[(
                        #[trigger] seats@[j]) as int]->Some_0.ready;
                    assert(self.players@[seats@[j] as int] is Some);
                }
            }
            if ready && seats.len() >= MIN_PLAYERS {
                self.in_menu = false;
            }
        }
    }
}

/// A scan that found every slot below `upto` taken has found the first free
/// slot if `upto` is free, and that there is none if `upto` is the end.
pub proof fn lemma_first_free_found(players: Seq<Option<Player>>, upto: int)
    requires
        0 <= upto <= players.len(),
        first_free(players, upto) is None,
        upto < players.len() ==> players[upto] is None,
    ensures
        upto < players.len() ==> first_free(players, players.len() as int) == Some(upto),
        upto == players.len() ==> first_free(players, players.len() as int) is None,
{
    if upto < players.len() {
        assert(first_free(players, upto + 1) == Some(upto));
        lemma_first_free_stays(players, upto + 1, players.len() as int);
    }
}

pub proof fn lemma_first_free_stays(players: Seq<Option<Player>>, upto: int, more: int)
    requires
        0 <= upto <= more,
        first_free(players, upto) is Some,
    ensures
        first_free(players, more) == first_free(players, upto),
    decreases more,
{
    if upto < more {
        lemma_first_free_stays(players, upto, more - 1);
    }
}

/// Height that the lowest grid falls to once it is dead: one grid below the
/// floor of the world.
pub const RETIRED_HEIGHT: WorldCoord = -8_000;

/// Height at which a new grid enters: on top of a full stack.
pub const ENTRY_HEIGHT: WorldCoord = 24_000;

/// The height that grid `i` of the stack falls toward: the lowest grid rests
/// on the floor of the world while it is alive and falls out of the world
/// once it is dead; every other grid rests on the one below it.
pub open spec fn fall_goal(grids: Seq<Grid>, i: int) -> int {
    if i == 0 {
        if grids[0].state == GridState::Dead {
            RETIRED_HEIGHT as int
        } else {
            0
        }
    } else {
        clamp_spec(
            -GRID_OFFSET_LIMIT as int,
            GRID_OFFSET_LIMIT as int,
            grids[i - 1].world_offset.y + GRID_HEIGHT_COORD,
        )
    }
}

/// The grids stand in order: none is below the height that it falls
/// toward, so that the lowest is not below where it rests and every other is
/// a grid's height or more above the one below it.
pub open spec fn stacked(grids: Seq<Grid>) -> bool {
    forall|i: int|
        0 <= i < grids.len() ==> (#[trigger] grids[i]).world_offset.y >= fall_goal(grids, i)
}

/// The stack after its first `upto` grids fell for a tick, lowest first: a
/// grid falls toward the grid below as that one has just been left.
pub open spec fn fallen(grids: Seq<Grid>, config: &GridConfig, upto: int) -> Seq<Grid>
    decreases upto,
{
    if upto <= 0 {
        grids
    } else {
        let before = fallen(grids, config, upto - 1);
        before.update(
            upto - 1,
            before[upto - 1].after_fixed_update(fall_goal(before, upto - 1), config),
        )
    }
}

/// The sounds of the first `upto` grids falling for a tick: one for each
/// grid that lands, the lowest grid with a sound of its own.
pub open spec fn fall_sounds(grids: Seq<Grid>, config: &GridConfig, upto: int) -> Seq<SoundEffect>
    decreases upto,
{
    if upto <= 0 {
        Seq::empty()
    } else {
        let before = fallen(grids, config, upto - 1);
        let sounds = fall_sounds(grids, config, upto - 1);
        if before[upto - 1].lands(fall_goal(before, upto - 1), config) {
            sounds.push(
                if upto == 1 {
                    SoundEffect::GridLandBottom
                } else {
                    SoundEffect::GridLand
                },
            )
        } else {
            sounds
        }
    }
}

/// The player after a tick: its frame, then its motion against the grids.
pub open spec fn player_advanced(player: Player, grids: Seq<Grid>, config: &PlayerConfig) -> Player {
    player.after_update(config).after_fixed_update(grids, config)
}

/// The slot after a tick of the player in it.
pub open spec fn slot_advanced(slot: Option<Player>, grids: Seq<Grid>, config: &PlayerConfig) -> Option<
    Player,
> {
    match slot {
        Some(player) => Some(player_advanced(player, grids, config)),
        None => None,
    }
}

/// The slots after a tick of every player.
pub open spec fn players_advanced(
    players: Seq<Option<Player>>,
    grids: Seq<Grid>,
    config: &PlayerConfig,
) -> Seq<Option<Player>> {
    players.map_values(|slot: Option<Player>| slot_advanced(slot, grids, config))
}

/// The bullets that the players in the first `upto` slots fire in a tick, in
/// the order of the slots.
pub open spec fn players_shots(players: Seq<Option<Player>>, config: &PlayerConfig, upto: int) -> Seq<
    Bullet,
>
    decreases upto,
{
    if upto <= 0 {
        Seq::empty()
    } else {
        players_shots(players, config, upto - 1) + slot_shots(players[upto - 1], config)
    }
}

/// The sounds that the players in the first `upto` slots make in a tick, in
/// the order of the slots.
pub open spec fn players_sounds(players: Seq<Option<Player>>, config: &PlayerConfig, upto: int) -> Seq<
    SoundEffect,
>
    decreases upto,
{
    if upto <= 0 {
        Seq::empty()
    } else {
        players_sounds(players, config, upto - 1) + slot_sounds(players[upto - 1], config)
    }
}

/// The bullets that the player in the slot fires in a tick.
pub open spec fn slot_shots(slot: Option<Player>, config: &PlayerConfig) -> Seq<Bullet> {
    match slot {
        Some(player) => player.update_shots(config),
        None => Seq::empty(),
    }
}

/// The sounds that the player in the slot makes in a tick.
pub open spec fn slot_sounds(slot: Option<Player>, config: &PlayerConfig) -> Seq<SoundEffect> {
    match slot {
        Some(player) => player.update_sounds(config),
        None => Seq::empty(),
    }
}

/// Runs the tick of the player in the slot: its frame, then its motion
/// against the grids.
pub fn advance_slot(
    slot: &mut Option<Player>,
    grids: &Vec<Grid>,
    bullets: &mut Vec<Bullet>,
    sounds: &mut Vec<SoundEffect>,
    config: &PlayerConfig,
)
    requires
        grids_wf(grids@),
        slot_wf(*old(slot)),
        config.wf(),
        bullets_wf(old(bullets)@),
        *old(slot) matches Some(player) ==> player.team.0 < MAX_PLAYERS,
    ensures
        *final(slot) == slot_advanced(*old(slot), grids@, config),
        slot_wf(*final(slot)),
        *final(slot) matches Some(after) ==> after.team == (*old(slot))->Some_0.team,
        final(bullets)@ == old(bullets)@ + slot_shots(*old(slot), config),
        final(sounds)@ == old(sounds)@ + slot_sounds(*old(slot), config),
        bullets_wf(final(bullets)@),
{
    match *slot {
        Some(mut player) => {
            let ghost fired = bullets@;
            let ghost before = player;
            player.update(bullets, sounds, config);
            assert(player.team == before.team);
            let ghost framed = player;
            player.fixed_update(grids.as_slice(), config);
            assert(player.team == framed.team);
            *slot = Some(player);
            assert(bullets_wf(bullets@)) by {
                assert forall|j: int| 0 <= j < bullets@.len() implies (#[trigger] bullets@[j]).wf()
                    && bullets@[j].team.0 < MAX_PLAYERS by {
                    if j < fired.len() {
                        assert(bullets@[j] == fired[j]);
                    } else {
                        assert(bullets@[j] == before.update_shots(config)[j - fired.len()]);
                    }
                }
            }
        },
        None => {
            assert(bullets@ =~= old(bullets)@ + slot_shots(*old(slot), config));
            assert(sounds@ =~= old(sounds)@ + slot_sounds(*old(slot), config));
        },
    }
}

/// A player may respawn on grid `g`: the grid has a tile to spawn on, it is
/// not above the world, and it is not the lowest grid worn below the
/// threshold under which that grid is too dangerous.
pub open spec fn can_spawn_on(grids: Seq<Grid>, g: int, config: &GridConfig) -> bool {
    &&& 0 <= g < grids.len()
    &&& !(g == 0 && grids[0].alive_ratio() < config.no_spawn_threshold)
    &&& grids[g].world_offset.y <= WORLD_HEIGHT
    &&& has_spawn(grids[g].tiles())
}

/// A player may respawn on some grid.
pub open spec fn can_respawn(grids: Seq<Grid>, config: &GridConfig) -> bool {
    exists|g: int| can_spawn_on(grids, g, config)
}

/// `after` is `before` put into play on a tile to spawn on of a grid that
/// it may respawn on.
pub open spec fn respawned_on(
    before: Player,
    after: Player,
    grids: Seq<Grid>,
    g: int,
    config: &PlayerConfig,
) -> bool {
    exists|col: int, row: int|
        #![trigger lowest_spawn(grids[g].tiles(), col, row)]
        lowest_spawn(grids[g].tiles(), col, row) && after == before.placed(
            &grids[g],
            col,
            row,
            config,
        )
}

/// What a respawn makes of a dead player: where no grid will have it, it
/// stays as it is; else it is put into play on one that will.
#[verifier::opaque]
pub open spec fn respawn_outcome(
    before: Player,
    after: Player,
    grids: Seq<Grid>,
    player_config: &PlayerConfig,
    grid_config: &GridConfig,
) -> bool {
    if can_respawn(grids, grid_config) {
        exists|g: int|
            #![trigger can_spawn_on(grids, g, grid_config)]
            can_spawn_on(grids, g, grid_config) && respawned_on(
                before,
                after,
                grids,
                g,
                player_config,
            )
    } else {
        after == before
    }
}

/// Tries the grids in the given order and respawns the player on the first
/// that it may respawn on. Says whether there was one; if not, the player
/// is unchanged.
pub fn respawn_in(
    player: &mut Player,
    grids: &Vec<Grid>,
    order: &Vec<usize>,
    player_config: &PlayerConfig,
    grid_config: &GridConfig,
) -> (respawned: bool)
    requires
        grids_wf(grids@),
        forall|k: int| 0 <= k < order@.len() ==> (#[trigger] order@[k]) < grids@.len(),
    ensures
        respawned <==> exists|k: int|
            0 <= k < order@.len() && can_spawn_on(grids@, (#[trigger] order@[k]) as int, grid_config),
        !respawned ==> *final(player) == *old(player),
        respawned ==> final(player).wf() && exists|k: int|
            {
                &&& 0 <= k < order@.len()
                &&& can_spawn_on(grids@, (#[trigger] order@[k]) as int, grid_config)
                &&& forall|j: int|
                    0 <= j < k ==> !can_spawn_on(grids@, (#[trigger] order@[j]) as int, grid_config)
                &&& respawned_on(*old(player), *final(player), grids@, order@[k] as int, player_config)
            },
{
    let mut k: usize = 0;
    while k < order.len()
        invariant
            k <= order@.len(),
            grids_wf(grids@),
            forall|j: int| 0 <= j < order@.len() ==> (#[trigger] order@[j]) < grids@.len(),
            *player == *old(player),
            forall|j: int|
                0 <= j < k ==> !can_spawn_on(grids@, (#[trigger] order@[j]) as int, grid_config),
        decreases order@.len() - k,
    {
        let i = order[k];
        let grid = &grids[i];
        // Avoid spawning on the lowest grid if too damaged
        // (might be instant death!)
        let dangerous = i == 0 && grid.percent_tiles_alive() < grid_config.no_spawn_threshold;
        // Don't spawn above the screen.
        let hidden = grid.world_offset.y > WORLD_HEIGHT;
        if !dangerous && !hidden {
            if player.respawn(grid, player_config) {
                assert(can_spawn_on(grids@, order@[k as int] as int, grid_config));
                return true;
            }
        }
        k += 1;
    }
    false
}

/// Respawns the player on a grid picked by chance among those that it may
/// respawn on. Says whether there was one; if not, the player is unchanged.
pub fn try_respawn(
    player: &mut Player,
    grids: &Vec<Grid>,
    player_config: &PlayerConfig,
    grid_config: &GridConfig,
) -> (respawned: bool)
    requires
        grids_wf(grids@),
    ensures
        respawned == can_respawn(grids@, grid_config),
        respawn_outcome(*old(player), *final(player), grids@, player_config, grid_config),
        respawned ==> final(player).wf(),
{
    let mut indices: Vec<usize> = Vec::new();
    let mut i: usize = 0;
    while i < grids.len()
        invariant
            i <= grids@.len(),
            indices@.len() == i,
            forall|k: int| 0 <= k < i ==> indices@[k] == k,
        decreases grids@.len() - i,
    {
        indices.push(i);
        i += 1;
    }
    let ghost ordered = indices@;
    shuffle(&mut indices);
    proof {
        broadcast use group_to_multiset_ensures;

        assert forall|k: int| 0 <= k < indices@.len() implies (#[trigger] indices@[k])
            < grids@.len() by {
            let c = indices@[k];
            assert(indices@.contains(c));
            assert(ordered.to_multiset().count(c) > 0);
            assert(ordered.contains(c));
        }
        assert forall|g: usize| g < grids@.len() implies #[trigger] indices@.contains(g) by {
            assert(ordered[g as int] == g);
            assert(ordered.contains(g));
            assert(indices@.to_multiset().count(g) > 0);
        }
    }
    let respawned = respawn_in(player, grids, &indices, player_config, grid_config);
    proof {
        reveal(respawn_outcome);
        if !respawned {
            assert forall|g: int| !can_spawn_on(grids@, g, grid_config) by {
                if can_spawn_on(grids@, g, grid_config) {
                    assert(indices@.contains(g as usize));
                    let k = choose|k: int| 0 <= k < indices@.len() && indices@[k] == g as usize;
                    assert(!can_spawn_on(grids@, indices@[k] as int, grid_config));
                }
            }
        }
    }
    respawned
}

/// What a round of respawns makes of a slot: an empty slot stays empty, a
/// living player stays as it is, and a dead player is respawned if some
/// grid will have it.
pub open spec fn slot_respawned(
    before: Option<Player>,
    after: Option<Player>,
    grids: Seq<Grid>,
    player_config: &PlayerConfig,
    grid_config: &GridConfig,
) -> bool {
    match before {
        Some(player) => match after {
            Some(next) => if player.alive {
                next == player
            } else {
                respawn_outcome(player, next, grids, player_config, grid_config)
            },
            None => false,
        },
        None => after is None,
    }
}

/// Respawns the player in the slot if it is dead and some grid will have
/// it.
pub fn respawn_slot(
    slot: &mut Option<Player>,
    grids: &Vec<Grid>,
    player_config: &PlayerConfig,
    grid_config: &GridConfig,
)
    requires
        grids_wf(grids@),
        slot_wf(*old(slot)),
    ensures
        slot_respawned(*old(slot), *final(slot), grids@, player_config, grid_config),
        slot_wf(*final(slot)),
        *final(slot) matches Some(after) ==> after.team == (*old(slot))->Some_0.team,
{
    if let Some(mut player) = *slot {
        // If the player is dead attempt to respawn them
        if !player.alive {
            let ghost before = player;
            let respawned = try_respawn(&mut player, grids, player_config, grid_config);
            proof {
                reveal(respawn_outcome);
                if respawned {
                    let g = choose|g: int|
                        #![trigger can_spawn_on(grids@, g, grid_config)]
                        can_spawn_on(grids@, g, grid_config) && respawned_on(
                            before,
                            player,
                            grids@,
                            g,
                            player_config,
                        );
                    let (col, row) = choose|col: int, row: int|
                        #![trigger lowest_spawn(grids@[g].tiles(), col, row)]
                        lowest_spawn(grids@[g].tiles(), col, row) && player == before.placed(
                            &grids@[g],
                            col,
                            row,
                            player_config,
                        );
                    assert(player.team == before.team);
                }
            }
            *slot = Some(player);
        }
    }
}

/// The bullets among `bullets` that are alive, in order.
pub open spec fn alive_bullets(bullets: Seq<Bullet>) -> Seq<Bullet>
    decreases bullets.len(),
{
    if bullets.len() == 0 {
        Seq::empty()
    } else if bullets.last().is_alive {
        alive_bullets(bullets.drop_last()).push(bullets.last())
    } else {
        alive_bullets(bullets.drop_last())
    }
}

/// What a volley of bullets leaves behind.
pub struct Volley {
    /// The bullets after their tick.
    pub bullets: Seq<Bullet>,
    pub grids: Seq<Grid>,
    pub players: Seq<Option<Player>>,
    pub sounds: Seq<SoundEffect>,
}

/// The world after the first `upto` of `bullets` had their tick, one after
/// the other, each meeting the grids and players as the bullets before it
/// left them.
pub open spec fn after_bullets(
    bullets: Seq<Bullet>,
    grids: Seq<Grid>,
    players: Seq<Option<Player>>,
    sounds: Seq<SoundEffect>,
    in_menu: bool,
    config: &PlayerConfig,
    upto: int,
) -> Volley
    decreases upto,
{
    if upto <= 0 {
        Volley { bullets: Seq::empty(), grids, players, sounds }
    } else {
        let before = after_bullets(bullets, grids, players, sounds, in_menu, config, upto - 1);
        let bullet = bullets[upto - 1];
        let rect = bullet.advanced().spec_rect();
        Volley {
            bullets: before.bullets.push(
                bullet.after_fixed_update(before.grids, before.players, config),
            ),
            grids: grids_after_bullet(before.grids, rect),
            players: players_after(
                bullet.advanced(),
                before.grids,
                before.players,
                in_menu,
                config,
            ),
            sounds: before.sounds + grids_hit_sounds(before.grids, rect),
        }
    }
}

/// The grids with one point of damage dealt to the tile in column `x`, row
/// `y` of grid `g`.
pub open spec fn eroded(grids: Seq<Grid>, g: int, x: int, y: int) -> Seq<Grid> {
    grids.update(g, grids[g].damaged(x, y))
}

/// The stack after its lowest grid was taken away and a new grid of the
/// given layout was put on top.
pub open spec fn cycled(grids: Seq<Grid>, module: Module) -> Seq<Grid> {
    grids.drop_first().push(Grid::made(ENTRY_HEIGHT, module))
}

/// The stack after the death check of every grid.
pub open spec fn deaths_checked(grids: Seq<Grid>, config: &GridConfig) -> Seq<Grid> {
    grids.map_values(|grid: Grid| grid.after_update(config))
}

/// What moves in a world.
pub struct Scene {
    pub grids: Seq<Grid>,
    pub players: Seq<Option<Player>>,
    pub bullets: Seq<Bullet>,
    pub sounds: Seq<SoundEffect>,
}

/// What stays as it is while a world runs.
pub struct Setting {
    pub in_menu: bool,
    pub modules: Seq<Module>,
    pub player_config: PlayerConfig,
    pub grid_config: GridConfig,
}

/// What chance decides in one tick.
pub struct Chance {
    /// The slots after the dead players were respawned.
    pub respawned: Seq<Option<Player>>,
    /// The grid, column and row of the tile that the terrain wore at, if it
    /// wore.
    pub erosion: Option<(int, int, int)>,
    /// The layout of the grid that enters if the lowest grid is replaced.
    pub module: int,
}

/// The scene after the grids fell.
pub open spec fn scene_fallen(scene: Scene, setting: Setting) -> Scene {
    Scene {
        grids: fallen(scene.grids, &setting.grid_config, GRID_COUNT as int),
        sounds: scene.sounds + fall_sounds(scene.grids, &setting.grid_config, GRID_COUNT as int),
        ..scene
    }
}

/// The scene after the players acted and moved.
pub open spec fn scene_advanced(scene: Scene, setting: Setting) -> Scene {
    Scene {
        players: players_advanced(scene.players, scene.grids, &setting.player_config),
        bullets: scene.bullets + players_shots(
            scene.players,
            &setting.player_config,
            MAX_PLAYERS as int,
        ),
        sounds: scene.sounds + players_sounds(
            scene.players,
            &setting.player_config,
            MAX_PLAYERS as int,
        ),
        ..scene
    }
}

/// The scene after the bullets flew.
pub open spec fn scene_shot(scene: Scene, setting: Setting) -> Scene {
    let volley = after_bullets(
        scene.bullets,
        scene.grids,
        scene.players,
        scene.sounds,
        setting.in_menu,
        &setting.player_config,
        scene.bullets.len() as int,
    );
    Scene {
        grids: volley.grids,
        players: volley.players,
        bullets: alive_bullets(volley.bullets),
        sounds: volley.sounds,
    }
}

/// The scene after the terrain wore where chance had it.
pub open spec fn scene_eroded(scene: Scene, erosion: Option<(int, int, int)>) -> Scene {
    match erosion {
        Some(at) => Scene { grids: eroded(scene.grids, at.0, at.1, at.2), ..scene },
        None => scene,
    }
}

/// The scene after the lowest grid, if it had fallen out of the world, was
/// replaced by a grid of the given layout.
pub open spec fn scene_cycled(scene: Scene, module: Module) -> Scene {
    if scene.grids[0].world_offset.y <= RETIRED_HEIGHT {
        Scene {
            grids: cycled(scene.grids, module),
            sounds: scene.sounds.push(SoundEffect::GridFallOffscreen),
            ..scene
        }
    } else {
        scene
    }
}

/// The scene after the death check of every grid.
pub open spec fn scene_checked(scene: Scene, setting: Setting) -> Scene {
    Scene { grids: deaths_checked(scene.grids, &setting.grid_config), ..scene }
}

/// The scene before the dead players respawn in a tick.
pub open spec fn scene_before_respawn(scene: Scene, setting: Setting) -> Scene {
    scene_advanced(scene_fallen(scene, setting), setting)
}

/// Chance decided as it may: every slot is as a respawn may leave it, the
/// terrain wore at a tile of a grid if at all, and the layout for a new
/// grid is one of those at hand.
pub open spec fn chance_may(scene: Scene, setting: Setting, chance: Chance) -> bool {
    let before = scene_before_respawn(scene, setting);
    &&& chance.respawned.len() == MAX_PLAYERS
    &&& forall|i: int|
        0 <= i < MAX_PLAYERS ==> slot_respawned(
            before.players[i],
            #[trigger] chance.respawned[i],
            before.grids,
            &setting.player_config,
            &setting.grid_config,
        )
    &&& chance.erosion matches Some(at) ==> 0 <= at.0 < GRID_COUNT && 0 <= at.1 < GRID_WIDTH && 0
        <= at.2 < GRID_HEIGHT
    &&& 0 <= chance.module < setting.modules.len()
}

/// The scene after one tick in which chance decided as given: the grids
/// fall; the players act and move, and the dead among them respawn; the
/// bullets fly; the terrain wears; the lowest grid is replaced once it has
/// fallen out of the world; the grids are checked for death.
pub open spec fn scene_after_tick(scene: Scene, setting: Setting, chance: Chance) -> Scene {
    let respawned = Scene { players: chance.respawned, ..scene_before_respawn(scene, setting) };
    let worn = scene_eroded(scene_shot(respawned, setting), chance.erosion);
    scene_checked(scene_cycled(worn, setting.modules[chance.module]), setting)
}

/// `after` is what some run of chance makes of `before` in one tick.
pub open spec fn ticked(before: Scene, after: Scene, setting: Setting) -> bool {
    exists|chance: Chance|
        #![trigger chance_may(before, setting, chance)]
        chance_may(before, setting, chance) && after == scene_after_tick(before, setting, chance)
}

/// `after` is what some run of chance makes of `before` in `ticks` ticks.
pub open spec fn ticked_times(before: Scene, after: Scene, setting: Setting, ticks: nat) -> bool
    decreases ticks,
{
    if ticks == 0 {
        after == before
    } else {
        exists|middle: Scene|
            #![trigger ticked(middle, after, setting)]
            ticked_times(before, middle, setting, (ticks - 1) as nat) && ticked(
                middle,
                after,
                setting,
            )
    }
}

impl MainState {
    /// What moves in the world.
    pub open spec fn scene(&self) -> Scene {
        Scene {
            grids: self.grids@,
            players: self.players@,
            bullets: self.bullets@,
            sounds: self.sounds@,
        }
    }

    /// What stays as it is while the world runs.
    pub open spec fn setting(&self) -> Setting {
        Setting {
            in_menu: self.in_menu,
            modules: self.modules@,
            player_config: self.player_config,
            grid_config: self.grid_config,
        }
    }

    /// Everything but the grids and the sounds is as in `other`.
    pub open spec fn same_but_terrain(&self, other: &MainState) -> bool {
        &&& self.focused == other.focused
        &&& self.in_menu == other.in_menu
        &&& self.modules == other.modules
        &&& self.players == other.players
        &&& self.bullets == other.bullets
        &&& self.player_config == other.player_config
        &&& self.grid_config == other.grid_config
    }

    /// A world in the menu: three grids of the first layout stacked from the
    /// floor, four empty slots, no bullets.
    pub fn new(modules: Vec<Module>, player_config: PlayerConfig, grid_config: GridConfig) -> (world:
        MainState)
        requires
            modules@.len() > 0,
            player_config.wf(),
            grid_config.wf(),
        ensures
            world.wf(),
            world.focused,
            world.in_menu,
            world.modules == modules,
            world.player_config == player_config,
            world.grid_config == grid_config,
            world.bullets@.len() == 0,
            world.sounds@.len() == 0,
            forall|i: int| 0 <= i < MAX_PLAYERS ==> (#[trigger] world.players@[i]) is None,
            forall|i: int|
                0 <= i < GRID_COUNT ==> #[trigger] world.grids@[i] == Grid::made(
                    (i * GRID_HEIGHT_COORD) as i64,
                    modules@[0],
                ),
    {
        let mut grids: Vec<Grid> = Vec::new();
        grids.push(Grid::new_from_module(0, modules[0]));
        grids.push(Grid::new_from_module(GRID_HEIGHT_COORD, modules[0]));
        grids.push(Grid::new_from_module(2 * GRID_HEIGHT_COORD, modules[0]));
        let mut players: Vec<Option<Player>> = Vec::new();
        players.push(None);
        players.push(None);
        players.push(None);
        players.push(None);
        MainState {
            focused: true,
            in_menu: true,
            grids,
            modules,
            players,
            bullets: Vec::with_capacity(20),
            sounds: Vec::new(),
            player_config,
            grid_config,
        }
    }

    /// Takes on new tunables if they are well formed, and says whether it
    /// did.
    pub fn configure(&mut self, player_config: PlayerConfig, grid_config: GridConfig) -> (taken:
        bool)
        requires
            old(self).wf(),
        ensures
            final(self).wf(),
            taken == (player_config.wf() && grid_config.wf()),
            final(self).player_config == (if taken {
                player_config
            } else {
                old(self).player_config
            }),
            final(self).grid_config == (if taken {
                grid_config
            } else {
                old(self).grid_config
            }),
            final(self).focused == old(self).focused,
            final(self).in_menu == old(self).in_menu,
            final(self).grids == old(self).grids,
            final(self).modules == old(self).modules,
            final(self).players == old(self).players,
            final(self).bullets == old(self).bullets,
            final(self).sounds == old(self).sounds,
    {
        if player_config.is_wf() && grid_config.is_wf() {
            self.player_config = player_config;
            self.grid_config = grid_config;
            true
        } else {
            false
        }
    }

    /// Lets every grid fall for a tick, lowest first, and queues a sound
    /// for each that lands.
    pub fn fall_grids(&mut self)
        requires
            old(self).wf(),
        ensures
            final(self).wf(),
            final(self).same_but_terrain(old(self)),
            final(self).grids@ == fallen(
                old(self).grids@,
                &old(self).grid_config,
                GRID_COUNT as int,
            ),
            final(self).sounds@ == old(self).sounds@ + fall_sounds(
                old(self).grids@,
                &old(self).grid_config,
                GRID_COUNT as int,
            ),
            stacked(final(self).grids@),
    {
        let config = self.grid_config;
        let ghost stack = self.grids@;
        let mut i: usize = 0;
        assert(self.sounds@ =~= old(self).sounds@ + fall_sounds(stack, &config, 0));
        while i < self.grids.len()
            invariant
                i <= GRID_COUNT,
                self.grids@.len() == GRID_COUNT,
                stack.len() == GRID_COUNT,
                grids_wf(self.grids@),
                config.wf(),
                config == old(self).grid_config,
                self.same_but_terrain(old(self)),
                self.grids@ == fallen(stack, &config, i as int),
                self.sounds@ == old(self).sounds@ + fall_sounds(stack, &config, i as int),
                forall|j: int|
                    0 <= j < i ==> (#[trigger] self.grids@[j]).world_offset.y >= fall_goal(
                        self.grids@,
                        j,
                    ),
            decreases GRID_COUNT - i,
        {
            let goal: WorldCoord = if i == 0 {
                if self.grids[0].state == GridState::Dead {
                    RETIRED_HEIGHT
                } else {
                    0
                }
            } else {
                clamp(
                    -GRID_OFFSET_LIMIT,
                    GRID_OFFSET_LIMIT,
                    self.grids[i - 1].world_offset.y + GRID_HEIGHT_COORD,
                )
            };
            assert(goal == fall_goal(self.grids@, i as int));
            let ghost before = self.grids@;
            let landed = self.grids[i].fixed_update(goal, &config);
            assert(self.grids@ =~= fallen(stack, &config, i + 1));
            if landed {
                self.sounds.push(
                    if i == 0 {
                        SoundEffect::GridLandBottom
                    } else {
                        SoundEffect::GridLand
                    },
                );
            }
            assert(self.sounds@ =~= old(self).sounds@ + fall_sounds(stack, &config, i + 1));
            assert(grids_wf(self.grids@)) by {
                assert forall|j: int| 0 <= j < self.grids@.len() implies (
                #[trigger] self.grids@[j]).wf() by {
                    if j != i {
                        assert(self.grids@[j] == before[j]);
                    }
                }
            }
            assert forall|j: int| 0 <= j < i + 1 implies (
            #[trigger] self.grids@[j]).world_offset.y >= fall_goal(self.grids@, j) by {
                if j < i {
                    assert(self.grids@[j] == before[j]);
                    assert(fall_goal(self.grids@, j) == fall_goal(before, j));
                }
            }
            i += 1;
        }
    }

    /// Runs the tick of every player: its frame, then its motion against
    /// the grids. Bullets fired and sounds made are queued in the order of
    /// the slots.
    pub fn advance_players(&mut self)
        requires
            old(self).wf(),
        ensures
            final(self).wf(),
            final(self).focused == old(self).focused,
            final(self).in_menu == old(self).in_menu,
            final(self).grids == old(self).grids,
            final(self).modules == old(self).modules,
            final(self).player_config == old(self).player_config,
            final(self).grid_config == old(self).grid_config,
            final(self).players@ == players_advanced(
                old(self).players@,
                old(self).grids@,
                &old(self).player_config,
            ),
            final(self).bullets@ == old(self).bullets@ + players_shots(
                old(self).players@,
                &old(self).player_config,
                MAX_PLAYERS as int,
            ),
            final(self).sounds@ == old(self).sounds@ + players_sounds(
                old(self).players@,
                &old(self).player_config,
                MAX_PLAYERS as int,
            ),
    {
        let config = self.player_config;
        let ghost slots = self.players@;
        let ghost stack = self.grids@;
        let mut i: usize = 0;
        assert(self.bullets@ =~= old(self).bullets@ + players_shots(slots, &config, 0));
        assert(self.sounds@ =~= old(self).sounds@ + players_sounds(slots, &config, 0));
        while i < self.players.len()
            invariant
                i <= MAX_PLAYERS,
                self.players@.len() == MAX_PLAYERS,
                slots.len() == MAX_PLAYERS,
                slots == old(self).players@,
                stack == old(self).grids@,
                config == old(self).player_config,
                config.wf(),
                self.focused == old(self).focused,
                self.in_menu == old(self).in_menu,
                self.grids == old(self).grids,
                self.modules == old(self).modules,
                self.player_config == old(self).player_config,
                self.grid_config == old(self).grid_config,
                grids_wf(self.grids@),
                players_wf(slots),
                seated_by_team(slots),
                players_wf(self.players@),
                seated_by_team(self.players@),
                bullets_wf(self.bullets@),
                forall|j: int|
                    0 <= j < i ==> #[trigger] self.players@[j] == slot_advanced(
                        slots[j],
                        stack,
                        &config,
                    ),
                forall|j: int| i <= j < MAX_PLAYERS ==> #[trigger] self.players@[j] == slots[j],
                self.bullets@ == old(self).bullets@ + players_shots(slots, &config, i as int),
                self.sounds@ == old(self).sounds@ + players_sounds(slots, &config, i as int),
            decreases MAX_PLAYERS - i,
        {
            let ghost seats = self.players@;
            let mut slot = self.players[i];
            assert(slot_wf(seats[i as int]));
            advance_slot(&mut slot, &self.grids, &mut self.bullets, &mut self.sounds, &config);
            self.players.set(i, slot);
            proof {
                assert forall|j: int| 0 <= j < MAX_PLAYERS implies slot_wf(
                    #[trigger] self.players@[j],
                ) by {
                    if j != i {
                        assert(self.players@[j] == seats[j]);
                        assert(slot_wf(seats[j]));
                    }
                }
                assert forall|j: int| 0 <= j < MAX_PLAYERS implies ((
                #[trigger] self.players@[j]) matches Some(player) ==> player.team.0 == j) by {
                    if j != i {
                        assert(self.players@[j] == seats[j]);
                    }
                }
            }
            assert(self.bullets@ =~= old(self).bullets@ + players_shots(slots, &config, i + 1));
            assert(self.sounds@ =~= old(self).sounds@ + players_sounds(slots, &config, i + 1));
            i += 1;
        }
        assert(self.players@ =~= players_advanced(slots, stack, &config));
    }

    /// Tries to respawn every dead player on a grid picked by chance. A
    /// living player and an empty slot are left alone; a dead player is put
    /// into play if some grid will have it, and is left as it is if none
    /// will.
    pub fn respawn_players(&mut self)
        requires
            old(self).wf(),
        ensures
            final(self).wf(),
            final(self).same_but_players(old(self)),
            forall|i: int|
                0 <= i < MAX_PLAYERS ==> slot_respawned(
                    old(self).players@[i],
                    #[trigger] final(self).players@[i],
                    old(self).grids@,
                    &old(self).player_config,
                    &old(self).grid_config,
                ),
    {
        let ghost slots = self.players@;
        let mut i: usize = 0;
        while i < self.players.len()
            invariant
                i <= MAX_PLAYERS,
                self.players@.len() == MAX_PLAYERS,
                slots == old(self).players@,
                self.same_but_players(old(self)),
                grids_wf(self.grids@),
                self.grids@.len() == GRID_COUNT,
                self.modules@.len() > 0,
                bullets_wf(self.bullets@),
                self.player_config.wf(),
                self.grid_config.wf(),
                players_wf(self.players@),
                seated_by_team(self.players@),
                forall|j: int| i <= j < MAX_PLAYERS ==> #[trigger] self.players@[j] == slots[j],
                forall|j: int|
                    0 <= j < i ==> slot_respawned(
                        slots[j],
                        #[trigger] self.players@[j],
                        old(self).grids@,
                        &old(self).player_config,
                        &old(self).grid_config,
                    ),
            decreases MAX_PLAYERS - i,
        {
            let ghost seats = self.players@;
            let mut slot = self.players[i];
            assert(slot_wf(seats[i as int]));
            respawn_slot(&mut slot, &self.grids, &self.player_config, &self.grid_config);
            self.players.set(i, slot);
            proof {
                assert forall|j: int| 0 <= j < MAX_PLAYERS implies slot_wf(
                    #[trigger] self.players@[j],
                ) by {
                    if j != i {
                        assert(self.players@[j] == seats[j]);
                        assert(slot_wf(seats[j]));
                    }
                }
                assert forall|j: int| 0 <= j < MAX_PLAYERS implies ((
                #[trigger] self.players@[j]) matches Some(player) ==> player.team.0 == j) by {
                    if j != i {
                        assert(self.players@[j] == seats[j]);
                    } else {
                        assert(seats[i as int] == slots[i as int]);
                    }
                }
            }
            i += 1;
        }
    }

    /// Runs the tick of every bullet, one after the other, and drops the
    /// bullets that died.
    pub fn update_bullets(&mut self)
        requires
            old(self).wf(),
        ensures
            final(self).wf(),
            final(self).focused == old(self).focused,
            final(self).in_menu == old(self).in_menu,
            final(self).modules == old(self).modules,
            final(self).player_config == old(self).player_config,
            final(self).grid_config == old(self).grid_config,
            ({
                let volley = after_bullets(
                    old(self).bullets@,
                    old(self).grids@,
                    old(self).players@,
                    old(self).sounds@,
                    old(self).in_menu,
                    &old(self).player_config,
                    old(self).bullets@.len() as int,
                );
                &&& final(self).bullets@ == alive_bullets(volley.bullets)
                &&& final(self).grids@ == volley.grids
                &&& final(self).players@ == volley.players
                &&& final(self).sounds@ == volley.sounds
            }),
    {
        let config = self.player_config;
        let in_menu = self.in_menu;
        let ghost shots = self.bullets@;
        let ghost stack = self.grids@;
        let ghost slots = self.players@;
        let ghost heard = self.sounds@;
        let mut kept: Vec<Bullet> = Vec::new();
        let mut i: usize = 0;
        while i < self.bullets.len()
            invariant
                i <= shots.len(),
                self.bullets@ == shots,
                bullets_wf(shots),
                config == self.player_config,
                in_menu == self.in_menu,
                config.wf(),
                self.focused == old(self).focused,
                self.in_menu == old(self).in_menu,
                self.modules == old(self).modules,
                self.player_config == old(self).player_config,
                self.grid_config == old(self).grid_config,
                self.grids@.len() == GRID_COUNT,
                grids_wf(self.grids@),
                self.players@.len() == MAX_PLAYERS,
                players_wf(self.players@),
                seated_by_team(self.players@),
                bullets_wf(kept@),
                ({
                    let volley = after_bullets(shots, stack, slots, heard, in_menu, &config, i as int);
                    &&& kept@ == alive_bullets(volley.bullets)
                    &&& self.grids@ == volley.grids
                    &&& self.players@ == volley.players
                    &&& self.sounds@ == volley.sounds
                }),
            decreases shots.len() - i,
        {
            let ghost before = after_bullets(shots, stack, slots, heard, in_menu, &config, i as int);
            let ghost seats = self.players@;
            let mut bullet = self.bullets[i];
            bullet.fixed_update(
                &mut self.sounds,
                &mut self.grids,
                &mut self.players,
                in_menu,
                &config,
            );
            proof {
                let now = after_bullets(shots, stack, slots, heard, in_menu, &config, i + 1);
                assert(now.bullets.last() == bullet);
                assert(now.bullets.drop_last() =~= before.bullets);
                lemma_players_after_seated(
                    shots[i as int].advanced(),
                    before.grids,
                    seats,
                    in_menu,
                    &config,
                );
            }
            if bullet.is_alive {
                kept.push(bullet);
            }
            i += 1;
        }
        self.bullets = kept;
    }

    /// Deals one point of damage to the tile in column `x`, row `y` of grid
    /// `grid_id`.
    pub fn erode_at(&mut self, grid_id: usize, x: GridCoord, y: GridCoord)
        requires
            old(self).wf(),
            grid_id < GRID_COUNT,
            x < GRID_WIDTH,
            y < GRID_HEIGHT,
        ensures
            final(self).wf(),
            final(self).same_but_terrain(old(self)),
            final(self).sounds == old(self).sounds,
            final(self).grids@ == eroded(old(self).grids@, grid_id as int, x as int, y as int),
    {
        let ghost before = self.grids@;
        self.grids[grid_id].damage_tile(x, y);
        assert(self.grids@ =~= eroded(before, grid_id as int, x as int, y as int));
        assert(grids_wf(self.grids@)) by {
            assert forall|j: int| 0 <= j < self.grids@.len() implies (#[trigger] self.grids@[j]).wf() by {
                if j != grid_id {
                    assert(self.grids@[j] == before[j]);
                }
            }
        }
    }

    /// Wears the terrain by chance: with the configured chance, one tile
    /// somewhere takes one point of damage, a tile of a lower grid rather
    /// than one of a higher. Where the chance is none the terrain is left
    /// as it is, and where the chance is full a tile is dealt damage in
    /// every tick; in between, chance decides which of the two happens.
    pub fn erode(&mut self)
        requires
            old(self).wf(),
        ensures
            final(self).wf(),
            final(self).same_but_terrain(old(self)),
            final(self).sounds == old(self).sounds,
            final(self).grids@ == old(self).grids@ || exists|g: int, x: int, y: int|
                0 <= g < GRID_COUNT && 0 <= x < GRID_WIDTH && 0 <= y < GRID_HEIGHT
                    && final(self).grids@ == #[trigger] eroded(old(self).grids@, g, x, y),
            old(self).grid_config.erosion_chance == 0 ==> final(self).grids@ == old(self).grids@,
            old(self).grid_config.erosion_chance == FULL_RATIO ==> exists|g: int, x: int, y: int|
                0 <= g < GRID_COUNT && 0 <= x < GRID_WIDTH && 0 <= y < GRID_HEIGHT
                    && final(self).grids@ == #[trigger] eroded(old(self).grids@, g, x, y),
    {
        let roll: usize = random_below(FULL_RATIO as usize);
        if roll < self.grid_config.erosion_chance as usize {
            let weights = erosion_weights();
            let grid_id: usize = match pick(&weights) {
                Some(id) => *id,
                None => 0,
            };
            assert(grid_id < GRID_COUNT) by {
                if weights@.contains(grid_id) {
                    let k = choose|k: int| 0 <= k < weights@.len() && weights@[k] == grid_id;
                    assert(weights@[k] < GRID_COUNT);
                }
            }
            let x = random_below(GRID_WIDTH);
            let y = random_below(GRID_HEIGHT);
            self.erode_at(grid_id, x, y);
        }
    }

    /// Takes the lowest grid away and puts a new grid of the given layout on
    /// top of the stack, to a sound.
    pub fn replace_bottom(&mut self, module: Module)
        requires
            old(self).wf(),
        ensures
            final(self).wf(),
            final(self).same_but_terrain(old(self)),
            final(self).grids@ == cycled(old(self).grids@, module),
            final(self).sounds@ == old(self).sounds@.push(SoundEffect::GridFallOffscreen),
    {
        let ghost before = self.grids@;
        self.grids.remove(0);
        self.grids.push(Grid::new_from_module(ENTRY_HEIGHT, module));
        self.sounds.push(SoundEffect::GridFallOffscreen);
        assert(self.grids@ =~= cycled(before, module)) by {
            assert(before.remove(0) =~= before.drop_first());
        }
        assert(grids_wf(self.grids@)) by {
            assert forall|j: int| 0 <= j < self.grids@.len() implies (#[trigger] self.grids@[j]).wf() by {
                if j < GRID_COUNT - 1 {
                    assert(self.grids@[j] == before[j + 1]);
                }
            }
        }
    }

    /// The lowest grid has fallen out of the world.
    pub open spec fn bottom_retired(&self) -> bool {
        self.grids@[0].world_offset.y <= RETIRED_HEIGHT
    }

    /// Once the lowest grid has fallen out of the world, takes it away and
    /// puts a new grid, of a layout picked by chance, on top of the stack.
    pub fn cycle_grids(&mut self)
        requires
            old(self).wf(),
        ensures
            final(self).wf(),
            final(self).same_but_terrain(old(self)),
            !old(self).bottom_retired() ==> final(self).grids == old(self).grids
                && final(self).sounds == old(self).sounds,
            old(self).bottom_retired() ==> final(self).sounds@ == old(self).sounds@.push(
                SoundEffect::GridFallOffscreen,
            ) && exists|m: int|
                0 <= m < old(self).modules@.len() && final(self).grids@ == cycled(
                    old(self).grids@,
                    #[trigger] old(self).modules@[m],
                ),
    {
        if self.grids[0].world_offset.y <= RETIRED_HEIGHT {
            let module: Module = match pick(&self.modules) {
                Some(module) => *module,
                None => self.modules[0],
            };
            assert(self.modules@.contains(module));
            let ghost m = choose|m: int| 0 <= m < self.modules@.len() && self.modules@[m] == module;
            self.replace_bottom(module);
            assert(self.grids@ == cycled(old(self).grids@, old(self).modules@[m]));
        }
    }

    /// Runs the death check of every grid.
    pub fn check_deaths(&mut self)
        requires
            old(self).wf(),
        ensures
            final(self).wf(),
            final(self).same_but_terrain(old(self)),
            final(self).sounds == old(self).sounds,
            final(self).grids@ == deaths_checked(old(self).grids@, &old(self).grid_config),
    {
        let config = self.grid_config;
        let ghost stack = self.grids@;
        let mut i: usize = 0;
        while i < self.grids.len()
            invariant
                i <= GRID_COUNT,
                self.grids@.len() == GRID_COUNT,
                stack == old(self).grids@,
                config == old(self).grid_config,
                config.wf(),
                grids_wf(stack),
                grids_wf(self.grids@),
                self.same_but_terrain(old(self)),
                self.sounds == old(self).sounds,
                forall|j: int| 0 <= j < i ==> #[trigger] self.grids@[j] == stack[j].after_update(&config),
                forall|j: int| i <= j < GRID_COUNT ==> #[trigger] self.grids@[j] == stack[j],
            decreases GRID_COUNT - i,
        {
            let ghost before = self.grids@;
            self.grids[i].update(&config);
            assert(grids_wf(self.grids@)) by {
                assert forall|j: int| 0 <= j < self.grids@.len() implies (
                #[trigger] self.grids@[j]).wf() by {
                    if j != i {
                        assert(self.grids@[j] == before[j]);
                    }
                }
            }
            i += 1;
        }
        assert(self.grids@ =~= deaths_checked(stack, &config));
    }

    /// Runs one tick of the world, in this order: the grids fall; the
    /// players act and move, and the dead among them respawn; the bullets
    /// fly; the terrain wears; the lowest grid is replaced once it has
    /// fallen out of the world; the grids are checked for death.
    pub fn fixed_update(&mut self)
        requires
            old(self).wf(),
        ensures
            final(self).wf(),
            final(self).focused == old(self).focused,
            final(self).in_menu == old(self).in_menu,
            final(self).modules == old(self).modules,
            final(self).player_config == old(self).player_config,
            final(self).grid_config == old(self).grid_config,
            ticked(old(self).scene(), final(self).scene(), old(self).setting()),
    {
        let ghost setting = self.setting();
        let ghost start = self.scene();
        self.fall_grids();
        assert(self.scene() == scene_fallen(start, setting));
        self.advance_players();
        let ghost before = self.scene();
        assert(before == scene_before_respawn(start, setting));
        self.respawn_players();
        let ghost respawned = self.scene();
        assert(respawned == (Scene { players: respawned.players, ..before }));
        self.update_bullets();
        let ghost shot = self.scene();
        assert(shot == scene_shot(respawned, setting));
        self.erode();
        let ghost worn = self.scene();
        let ghost erosion: Option<(int, int, int)> = if worn.grids == shot.grids {
            None
        } else {
            let (g, x, y) = choose|g: int, x: int, y: int|
                0 <= g < GRID_COUNT && 0 <= x < GRID_WIDTH && 0 <= y < GRID_HEIGHT && worn.grids
                    == #[trigger] eroded(shot.grids, g, x, y);
            Some((g, x, y))
        };
        assert(worn == scene_eroded(shot, erosion));
        let ghost retired = self.bottom_retired();
        self.cycle_grids();
        let ghost cycled_scene = self.scene();
        let ghost module: int = if retired {
            choose|m: int|
                0 <= m < setting.modules.len() && cycled_scene.grids == cycled(
                    worn.grids,
                    #[trigger] setting.modules[m],
                )
        } else {
            0
        };
        assert(cycled_scene == scene_cycled(worn, setting.modules[module]));
        self.check_deaths();
        assert(self.scene() == scene_checked(cycled_scene, setting));
        proof {
            let chance = Chance { respawned: respawned.players, erosion, module };
            assert(chance_may(start, setting, chance));
            assert(self.scene() == scene_after_tick(start, setting, chance));
        }
    }

    /// Runs one frame of the world, in which `ticks` ticks have come due. A
    /// world without focus stands still. Otherwise the menu ends once the
    /// players are ready, and the ticks run.
    pub fn update(&mut self, ticks: u32)
        requires
            old(self).wf(),
        ensures
            final(self).wf(),
            final(self).focused == old(self).focused,
            final(self).modules == old(self).modules,
            final(self).player_config == old(self).player_config,
            final(self).grid_config == old(self).grid_config,
            !old(self).focused ==> final(self).in_menu == old(self).in_menu
                && final(self).scene() == old(self).scene(),
            old(self).focused ==> final(self).in_menu == (old(self).in_menu && !(all_ready(
                old(self).players@,
            ) && occupied(old(self).players@, MAX_PLAYERS as int).len() >= MIN_PLAYERS)),
            old(self).focused ==> ticked_times(
                old(self).scene(),
                final(self).scene(),
                final(self).setting(),
                ticks as nat,
            ),
    {
        if !self.focused {
            return ;
        }
        self.start_when_ready();
        let ghost setting = self.setting();
        let ghost start = self.scene();
        let mut tick: u32 = 0;
        while tick < ticks
            invariant
                tick <= ticks,
                self.wf(),
                self.focused == old(self).focused,
                self.setting() == setting,
                self.modules == old(self).modules,
                ticked_times(start, self.scene(), setting, tick as nat),
            decreases ticks - tick,
        {
            let ghost middle = self.scene();
            self.fixed_update();
            assert(ticked(middle, self.scene(), setting));
            tick += 1;
        }
    }

    /// Tells the world whether its window has the focus.
    pub fn focus(&mut self, gained: bool)
        ensures
            final(self).focused == gained,
            final(self).in_menu == old(self).in_menu,
            final(self).grids == old(self).grids,
            final(self).modules == old(self).modules,
            final(self).players == old(self).players,
            final(self).bullets == old(self).bullets,
            final(self).sounds == old(self).sounds,
            final(self).player_config == old(self).player_config,
            final(self).grid_config == old(self).grid_config,
    {
        self.focused = gained;
    }
}

/// The grids that erosion picks from, each as often as its chance weighs:
/// sixteen to four to one, from the lowest grid up.
pub fn erosion_weights() -> (weights: Vec<usize>)
    ensures
        weights@.len() == 21,
        forall|k: int| 0 <= k < 16 ==> weights@[k] == 0,
        forall|k: int| 16 <= k < 20 ==> weights@[k] == 1,
        weights@[20] == 2,
{
    let mut weights: Vec<usize> = Vec::new();
    let mut k: usize = 0;
    while k < 16
        invariant
            k <= 16,
            weights@.len() == k,
            forall|j: int| 0 <= j < k ==> weights@[j] == 0,
        decreases 16 - k,
    {
        weights.push(0);
        k += 1;
    }
    while k < 20
        invariant
            16 <= k <= 20,
            weights@.len() == k,
            forall|j: int| 0 <= j < 16 ==> weights@[j] == 0,
            forall|j: int| 16 <= j < k ==> weights@[j] == 1,
        decreases 20 - k,
    {
        weights.push(1);
        k += 1;
    }
    weights.push(2);
    weights
}

/// A bullet of a seated world leaves the players seated and well formed.
pub proof fn lemma_players_after_seated(
    flown: Bullet,
    grids: Seq<Grid>,
    players: Seq<Option<Player>>,
    in_menu: bool,
    config: &PlayerConfig,
)
    requires
        seated_by_team(players),
        flown.team.0 < players.len(),
    ensures
        seated_by_team(players_after(flown, grids, players, in_menu, config)),
{
    let struck = flown.players_after_strikes(players, config);
    let rect = flown.spec_rect();
    let own = flown.team.0 as int;
    assert(seated_by_team(struck)) by {
        assert forall|i: int| 0 <= i < struck.len() implies ((#[trigger] struck[i]) matches Some(
            player,
        ) ==> player.team.0 == i) by {
            assert(struck[i] == flown.slot_after_strike(players[i], config));
        }
    }
    lemma_slot_after_grids_team(struck[own], grids, rect, in_menu);
}

/// The tiles that a bullet meets leave the player in its slot, if they
/// leave one, of the team it was of.
pub proof fn lemma_slot_after_grids_team(
    slot: Option<Player>,
    grids: Seq<Grid>,
    rect: Rect,
    in_menu: bool,
)
    ensures
        slot_after_grids(slot, grids, rect, in_menu) matches Some(after) ==> slot is Some
            && after.team == slot->Some_0.team,
    decreases grids.len(),
{
    if grids.len() > 0 {
        lemma_slot_after_grids_team(slot, grids.drop_last(), rect, in_menu);
        lemma_slot_after_hits_team(
            slot_after_grids(slot, grids.drop_last(), rect, in_menu),
            grids.last().overlapping(rect),
            in_menu,
        );
    }
}

pub proof fn lemma_slot_after_hits_team(
    slot: Option<Player>,
    hits: Seq<TileAt>,
    in_menu: bool,
)
    ensures
        slot_after_hits(slot, hits, in_menu) matches Some(after) ==> slot is Some
            && after.team == slot->Some_0.team,
    decreases hits.len(),
{
    if hits.len() > 0 {
        lemma_slot_after_hits_team(slot, hits.drop_last(), in_menu);
    }
}

} // verus!
