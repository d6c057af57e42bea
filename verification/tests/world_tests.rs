use fall::bullet::Bullet;
use fall::config::{GridConfig, PlayerConfig};
use fall::grid::{Grid, GridState, Module, Tile, GRID_HEIGHT, GRID_WIDTH};
use fall::math::{Point2, Vector2};
use fall::player::{
    arrow_controls, joycon_controls, wasd_controls, Button, Keycode, PadAxis, PadButton, Player,
    Team,
};
use fall::sound::SoundEffect;
use fall::spawn::{find_spawn_in, find_spawn_location, spawn_row};
use fall::world::{
    advance_slot, erosion_weights, respawn_in, respawn_slot, somes_mut, try_respawn, MainState,
    GRID_COUNT, MAX_PLAYERS,
};

fn air() -> Module {
    [[Tile::Air; GRID_WIDTH]; GRID_HEIGHT]
}

fn floor() -> Module {
    let mut module = air();
    module[0] = [Tile::Solid(4); GRID_WIDTH];
    module
}

fn solid(health: u8) -> Module {
    [[Tile::Solid(health); GRID_WIDTH]; GRID_HEIGHT]
}

fn world_of(module: Module) -> MainState {
    MainState::new(vec![module], PlayerConfig::default(), GridConfig::default())
}

fn living(world: &MainState) -> usize {
    world.grids.iter().map(|grid| grid.tiles_alive).sum()
}

#[test]
fn default_grid_config() {
    let config = GridConfig::default();
    assert_eq!(config.falling_accel, -25_000);
    assert_eq!(config.death_threshold, 950);
    assert_eq!(config.no_spawn_threshold, 500);
    assert_eq!(config.gap, 500);
    assert_eq!(config.erosion_chance, 200);
    assert!(config.is_wf());
    assert!(!GridConfig { falling_accel: 1, ..config }.is_wf());
    assert!(!GridConfig { death_threshold: 1001, ..config }.is_wf());
    assert!(!GridConfig { gap: -1, ..config }.is_wf());
}

#[test]
fn new_world_is_a_menu_with_three_grids_stacked() {
    let world = MainState::new(vec![floor(), air()], PlayerConfig::default(), GridConfig::default());
    assert!(world.focused);
    assert!(world.in_menu);
    assert_eq!(world.grids.len(), GRID_COUNT);
    for (i, grid) in world.grids.iter().enumerate() {
        assert_eq!(grid.module, floor());
        assert_eq!(grid.world_offset, Point2 { x: 0, y: 8000 * i as i64 });
        assert_eq!(grid.state, GridState::Alive);
        assert_eq!(grid.tiles_alive, 32);
    }
    assert_eq!(world.modules.len(), 2);
    assert_eq!(world.players, vec![None, None, None, None]);
    assert_eq!(world.players.len(), MAX_PLAYERS);
    assert!(world.bullets.is_empty());
    assert!(world.sounds.is_empty());
}

#[test]
fn occupied_slots_in_order() {
    let slots: Vec<Option<u8>> = vec![None, Some(7), None, Some(9)];
    assert_eq!(somes_mut(&slots), vec![1, 3]);
    assert_eq!(somes_mut(&Vec::<Option<u8>>::new()), Vec::<usize>::new());
    assert_eq!(somes_mut(&vec![Some(1u8), Some(2), Some(3)]), vec![0, 1, 2]);
    assert_eq!(somes_mut(&vec![None::<u8>, None]), Vec::<usize>::new());
}

#[test]
fn players_join_by_pressing_a_button_nobody_is_bound_to() {
    let config = PlayerConfig::default();
    let mut world = world_of(floor());
    world.button(Button::Keyboard(Keycode::Up), true);
    assert_eq!(world.players[0], Some(Player::new(Team(0), arrow_controls(), &config)));
    assert_eq!(world.players[1], None);
    world.button(Button::Keyboard(Keycode::W), true);
    assert_eq!(world.players[1], Some(Player::new(Team(1), wasd_controls(), &config)));
    world.button(Button::Controller(5, PadButton::A), true);
    assert_eq!(world.players[2], Some(Player::new(Team(2), joycon_controls(5), &config)));
    world.button(Button::Controller(6, PadButton::A), true);
    assert_eq!(world.players[3], Some(Player::new(Team(3), joycon_controls(6), &config)));
    let full = world.players.clone();
    world.button(Button::Controller(7, PadButton::A), true);
    assert_eq!(world.players, full);
}

#[test]
fn bound_buttons_and_other_buttons_let_nobody_join() {
    let mut world = world_of(floor());
    world.button(Button::Keyboard(Keycode::Tab), true);
    world.button(Button::Keyboard(Keycode::Other(1)), true);
    world.button(Button::Controller(0, PadButton::B), true);
    world.button(Button::Keyboard(Keycode::Up), false);
    assert_eq!(world.players, vec![None, None, None, None]);
    world.button(Button::Keyboard(Keycode::Up), true);
    world.button(Button::Keyboard(Keycode::Up), true);
    assert!(world.players[0].unwrap().control_state.jump);
    assert_eq!(world.players[1], None);
    world.button(Button::Keyboard(Keycode::Up), false);
    assert!(!world.players[0].unwrap().control_state.jump);
    world.button(Button::Keyboard(Keycode::Left), true);
    assert!(world.players[0].unwrap().control_state.l_pressed);
    assert_eq!(world.players[0].unwrap().control_state.facing, -1);
}

#[test]
fn joining_takes_the_first_free_slot() {
    let mut world = world_of(floor());
    world.button(Button::Keyboard(Keycode::Up), true);
    world.button(Button::Keyboard(Keycode::W), true);
    world.players[0] = None;
    world.button(Button::Controller(1, PadButton::A), true);
    assert_eq!(world.players[0].unwrap().team, Team(0));
    assert_eq!(world.players[0].unwrap().controls, joycon_controls(1));
    assert_eq!(world.players[1].unwrap().controls, wasd_controls());
}

#[test]
fn axis_reaches_the_player_bound_to_it() {
    let mut world = world_of(floor());
    world.button(Button::Controller(5, PadButton::A), true);
    world.button(Button::Controller(6, PadButton::A), true);
    world.axis(PadAxis::LeftX, 6, i16::MAX);
    assert_eq!(world.players[0].unwrap().control_state.lr, 0);
    assert_eq!(world.players[1].unwrap().control_state.lr, 1000);
    assert_eq!(world.players[1].unwrap().control_state.facing, 1);
    world.axis(PadAxis::Other(3), 5, i16::MAX);
    assert_eq!(world.players[0].unwrap().control_state.lr, 0);
}

#[test]
fn game_starts_when_two_players_are_ready() {
    let mut world = world_of(floor());
    world.start_when_ready();
    assert!(world.in_menu);
    world.button(Button::Keyboard(Keycode::Up), true);
    world.players[0].as_mut().unwrap().ready = true;
    world.start_when_ready();
    assert!(world.in_menu);
    world.button(Button::Keyboard(Keycode::W), true);
    world.start_when_ready();
    assert!(world.in_menu);
    world.players[1].as_mut().unwrap().ready = true;
    world.start_when_ready();
    assert!(!world.in_menu);
    world.players[1].as_mut().unwrap().ready = false;
    world.start_when_ready();
    assert!(!world.in_menu);
}

#[test]
fn world_without_focus_stands_still() {
    let mut world = world_of(floor());
    world.button(Button::Keyboard(Keycode::Up), true);
    world.button(Button::Keyboard(Keycode::W), true);
    world.players[0].as_mut().unwrap().ready = true;
    world.players[1].as_mut().unwrap().ready = true;
    world.grids[2].world_offset.y = 20_000;
    world.focus(false);
    assert!(!world.focused);
    let before = world.clone();
    world.update(10);
    assert_eq!(world.grids, before.grids);
    assert_eq!(world.players, before.players);
    assert!(world.in_menu);
    world.focus(true);
    world.update(0);
    assert!(!world.in_menu);
    assert_eq!(world.grids, before.grids);
}

#[test]
fn stack_at_rest_stays_at_rest() {
    let mut world = world_of(floor());
    let before = world.grids.clone();
    world.fall_grids();
    assert_eq!(world.grids, before);
    assert!(world.sounds.is_empty());
}

#[test]
fn grids_fall_onto_the_grid_below() {
    let mut world = world_of(floor());
    world.grids[1].world_offset.y = 9000;
    world.grids[2].world_offset.y = 17_400;
    world.fall_grids();
    assert_eq!(world.grids[0].world_offset.y, 0);
    assert_eq!(world.grids[1].world_offset.y, 8994);
    assert_eq!(world.grids[1].velocity, -416);
    assert_eq!(world.grids[2].world_offset.y, 17_400);
    assert_eq!(world.grids[2].velocity, 0);
    assert!(world.sounds.is_empty());
    world.grids[1].world_offset.y = 8003;
    world.fall_grids();
    assert_eq!(world.grids[1].world_offset.y, 8000);
    assert_eq!(world.grids[1].velocity, 0);
    assert_eq!(world.grids[2].world_offset.y, 17_394);
    assert_eq!(world.sounds, vec![SoundEffect::GridLand]);
}

#[test]
fn dead_bottom_grid_falls_out_of_the_world() {
    let mut world = world_of(floor());
    world.grids[0].state = GridState::Dead;
    world.fall_grids();
    assert_eq!(world.grids[0].world_offset.y, -6);
    assert_eq!(world.grids[0].acceleration, -25_000);
    assert_eq!(world.grids[1].world_offset.y, 8000);
    world.grids[0].world_offset.y = -7990;
    world.grids[0].velocity = -6000;
    world.sounds.clear();
    world.fall_grids();
    assert_eq!(world.grids[0].world_offset.y, -8000);
    assert_eq!(world.sounds[0], SoundEffect::GridLandBottom);
}

#[test]
fn retired_bottom_grid_is_replaced_from_the_top() {
    let mut world = MainState::new(
        vec![floor(), solid(2)],
        PlayerConfig::default(),
        GridConfig::default(),
    );
    let before = world.grids.clone();
    world.cycle_grids();
    assert_eq!(world.grids, before);
    assert!(world.sounds.is_empty());
    world.grids[0].world_offset.y = -8000;
    world.cycle_grids();
    assert_eq!(world.grids.len(), 3);
    assert_eq!(world.grids[0], before[1]);
    assert_eq!(world.grids[1], before[2]);
    assert_eq!(world.grids[2].world_offset, Point2 { x: 0, y: 24_000 });
    assert_eq!(world.grids[2].state, GridState::Alive);
    assert!(world.grids[2].module == floor() || world.grids[2].module == solid(2));
    assert_eq!(world.grids[2].tiles_alive, world.grids[2].total_tiles);
    assert_eq!(world.sounds, vec![SoundEffect::GridFallOffscreen]);
}

#[test]
fn new_grids_are_made_from_every_layout_in_time() {
    let mut world = MainState::new(
        vec![floor(), solid(2)],
        PlayerConfig::default(),
        GridConfig::default(),
    );
    let mut floors: usize = 0;
    let mut solids: usize = 0;
    for _ in 0..200 {
        world.grids[0].world_offset.y = -8000;
        world.cycle_grids();
        if world.grids[2].module == floor() {
            floors += 1;
        } else {
            assert_eq!(world.grids[2].module, solid(2));
            solids += 1;
        }
    }
    assert!(floors > 0);
    assert!(solids > 0);
}

#[test]
fn bottom_grid_can_be_replaced_by_a_given_layout() {
    let mut world = world_of(floor());
    let before = world.grids.clone();
    world.replace_bottom(solid(3));
    assert_eq!(world.grids[0], before[1]);
    assert_eq!(world.grids[1], before[2]);
    assert_eq!(world.grids[2], Grid::new_from_module(24_000, solid(3)));
    assert_eq!(world.sounds, vec![SoundEffect::GridFallOffscreen]);
}

#[test]
fn worn_grids_die_at_the_death_check() {
    let mut world = world_of(solid(1));
    for x in 0..13 {
        world.erode_at(1, x, 0);
    }
    world.check_deaths();
    assert_eq!(world.grids[0].state, GridState::Alive);
    assert_eq!(world.grids[1].state, GridState::Dead);
    assert_eq!(world.grids[2].state, GridState::Alive);
}

#[test]
fn erosion_at_a_place_damages_that_tile() {
    let mut world = world_of(solid(4));
    let before = world.grids.clone();
    world.erode_at(2, 31, 7);
    assert_eq!(world.grids[2].module[7][31], Tile::Solid(3));
    assert_eq!(world.grids[0], before[0]);
    assert_eq!(world.grids[1], before[1]);
    world.grids[2].module[7][31] = Tile::Solid(4);
    assert_eq!(world.grids[2], before[2]);
}

#[test]
fn erosion_wears_the_terrain_bit_by_bit() {
    let config = GridConfig { erosion_chance: 1000, ..GridConfig::default() };
    let mut world = MainState::new(vec![solid(1)], PlayerConfig::default(), config);
    let mut alive: usize = living(&world);
    assert_eq!(alive, 768);
    let mut hits: usize = 0;
    for _ in 0..400 {
        world.erode();
        let now: usize = living(&world);
        assert!(now == alive || now + 1 == alive);
        if now < alive {
            hits += 1;
        }
        alive = now;
    }
    assert!(hits > 100);
    assert!(world.grids[0].tiles_alive < world.grids[2].tiles_alive);
    let mut rows: usize = 0;
    for y in 0..GRID_HEIGHT {
        if world.grids[0].module[y].iter().any(|tile| *tile == Tile::Air) {
            rows += 1;
        }
    }
    assert!(rows > 1);
}

#[test]
fn erosion_without_chance_does_nothing() {
    let config = GridConfig { erosion_chance: 0, ..GridConfig::default() };
    let mut world = MainState::new(vec![solid(1)], PlayerConfig::default(), config);
    let before = world.grids.clone();
    for _ in 0..200 {
        world.erode();
    }
    assert_eq!(world.grids, before);
}

#[test]
fn erosion_weighs_the_lower_grids() {
    let weights = erosion_weights();
    assert_eq!(weights.len(), 21);
    assert_eq!(weights.iter().filter(|grid| **grid == 0).count(), 16);
    assert_eq!(weights.iter().filter(|grid| **grid == 1).count(), 4);
    assert_eq!(weights.iter().filter(|grid| **grid == 2).count(), 1);
}

#[test]
fn dead_bullets_are_dropped() {
    let mut world = world_of(air());
    world.bullets = vec![
        Bullet::new(Point2 { x: 5000, y: 5000 }, Vector2 { x: 30_000, y: 0 }, Team(0)),
        Bullet::new(Point2 { x: 34_000, y: 5000 }, Vector2 { x: 30_000, y: 0 }, Team(1)),
        Bullet::new(Point2 { x: 9000, y: 5000 }, Vector2 { x: -30_000, y: 0 }, Team(2)),
    ];
    world.update_bullets();
    assert_eq!(
        world.bullets,
        vec![
            Bullet::new(Point2 { x: 5500, y: 5000 }, Vector2 { x: 30_000, y: 0 }, Team(0)),
            Bullet::new(Point2 { x: 8500, y: 5000 }, Vector2 { x: -30_000, y: 0 }, Team(2)),
        ]
    );
}

#[test]
fn later_bullets_meet_what_earlier_bullets_left() {
    let mut module = air();
    module[2][5] = Tile::Solid(3);
    let mut world = world_of(module);
    let shot = Bullet::new(Point2 { x: 5000, y: 2300 }, Vector2 { x: 30_000, y: 0 }, Team(0));
    world.bullets = vec![shot, shot, shot];
    world.update_bullets();
    assert_eq!(world.grids[0].module[2][5], Tile::Air);
    assert_eq!(world.grids[0].tiles_alive, 0);
    assert_eq!(
        world.bullets,
        vec![Bullet { pos: Point2 { x: 5500, y: 2300 }, ..shot }]
    );
    assert_eq!(world.sounds, vec![SoundEffect::DamageBlock, SoundEffect::DamageBlockMore]);
}

#[test]
fn players_act_and_move_in_a_tick() {
    let mut world = world_of(floor());
    world.button(Button::Keyboard(Keycode::Up), true);
    world.button(Button::Keyboard(Keycode::W), true);
    {
        let second = world.players[1].as_mut().unwrap();
        second.alive = true;
        second.pos = Point2 { x: 10_000, y: 5000 };
        second.control_state.shoot = true;
        second.control_state.facing = 1;
    }
    let first = world.players[0];
    world.advance_players();
    assert_eq!(world.players[0], first);
    let second = world.players[1].unwrap();
    assert_eq!(second.cooldown, 17);
    assert_eq!(second.pos, Point2 { x: 10_000, y: 5000 });
    assert_eq!(second.acc, Vector2 { x: 0, y: -20_000 });
    assert_eq!(world.bullets.len(), 1);
    assert_eq!(world.bullets[0].team, Team(1));
    assert_eq!(world.bullets[0].pos, Point2 { x: 10_933, y: 5533 });
    assert_eq!(world.sounds, vec![SoundEffect::Shoot]);
}

#[test]
fn dead_players_respawn_where_they_can() {
    let mut world = world_of(floor());
    world.button(Button::Keyboard(Keycode::Up), true);
    world.button(Button::Keyboard(Keycode::W), true);
    world.players[1].as_mut().unwrap().alive = true;
    let living = world.players[1];
    world.respawn_players();
    assert_eq!(world.players[1], living);
    let respawned = world.players[0].unwrap();
    assert!(respawned.alive);
    assert_eq!(respawned.health(), 4);
    assert!([1000, 9000, 17_000].contains(&respawned.pos.y));
    assert_eq!(world.players[2], None);
}

#[test]
fn nobody_respawns_without_a_place() {
    let mut world = world_of(air());
    world.button(Button::Keyboard(Keycode::Up), true);
    let before = world.players.clone();
    world.respawn_players();
    assert_eq!(world.players, before);
}

#[test]
fn respawn_avoids_a_worn_bottom_grid_and_grids_above_the_world() {
    let grid_config = GridConfig::default();
    let player_config = PlayerConfig::default();
    let mut worn = Grid::new_from_module(0, floor());
    for x in 0..17 {
        for _ in 0..4 {
            worn.damage_tile(x, 0);
        }
    }
    assert_eq!(worn.percent_tiles_alive(), 468);
    let hidden = Grid::new_from_module(24_001, floor());
    let mut player = Player::new(Team(0), wasd_controls(), &player_config);
    let before = player;
    let grids = vec![worn.clone(), hidden.clone()];
    for _ in 0..20 {
        assert!(!try_respawn(&mut player, &grids, &player_config, &grid_config));
        assert_eq!(player, before);
    }
    assert!(!respawn_in(&mut player, &grids, &vec![1, 0], &player_config, &grid_config));
    let edge = Grid::new_from_module(24_000, floor());
    let grids = vec![worn.clone(), hidden, edge];
    assert!(try_respawn(&mut player, &grids, &player_config, &grid_config));
    assert_eq!(player.pos.y, 25_000);
    let mut other = before;
    let grids = vec![Grid::new_from_module(0, air()), worn];
    assert!(respawn_in(&mut other, &grids, &vec![0, 1], &player_config, &grid_config));
    assert_eq!(other.pos.y, 1000);
    assert!(other.pos.x >= 17_500);
}

#[test]
fn respawn_tries_the_grids_in_the_order_given() {
    let grid_config = GridConfig::default();
    let player_config = PlayerConfig::default();
    let grids = vec![
        Grid::new_from_module(0, floor()),
        Grid::new_from_module(8000, air()),
        Grid::new_from_module(16_000, floor()),
    ];
    let mut player = Player::new(Team(0), wasd_controls(), &player_config);
    assert!(respawn_in(&mut player, &grids, &vec![1, 2, 0], &player_config, &grid_config));
    assert_eq!(player.pos.y, 17_000);
    let mut player = Player::new(Team(0), wasd_controls(), &player_config);
    assert!(respawn_in(&mut player, &grids, &vec![1, 0, 2], &player_config, &grid_config));
    assert_eq!(player.pos.y, 1000);
    let mut player = Player::new(Team(0), wasd_controls(), &player_config);
    let before = player;
    assert!(!respawn_in(&mut player, &grids, &vec![1], &player_config, &grid_config));
    assert!(!respawn_in(&mut player, &grids, &Vec::new(), &player_config, &grid_config));
    assert_eq!(player, before);
}

#[test]
fn slots_are_advanced_and_respawned_one_by_one() {
    let player_config = PlayerConfig::default();
    let grid_config = GridConfig::default();
    let grids = vec![Grid::new_from_module(0, floor())];
    let mut bullets: Vec<Bullet> = Vec::new();
    let mut sounds: Vec<SoundEffect> = Vec::new();
    let mut empty: Option<Player> = None;
    advance_slot(&mut empty, &grids, &mut bullets, &mut sounds, &player_config);
    respawn_slot(&mut empty, &grids, &player_config, &grid_config);
    assert_eq!(empty, None);
    let mut slot = Some(Player::new(Team(0), wasd_controls(), &player_config));
    respawn_slot(&mut slot, &grids, &player_config, &grid_config);
    assert!(slot.unwrap().alive);
    assert_eq!(slot.unwrap().pos.y, 1000);
    let placed = slot;
    respawn_slot(&mut slot, &grids, &player_config, &grid_config);
    assert_eq!(slot, placed);
    advance_slot(&mut slot, &grids, &mut bullets, &mut sounds, &player_config);
    assert_eq!(slot.unwrap().acc, Vector2 { x: 0, y: -20_000 });
    assert!(bullets.is_empty());
}

#[test]
fn spawn_is_on_the_lowest_clear_tile_of_a_column() {
    let mut module = air();
    module[1][3] = Tile::Solid(1);
    module[4][3] = Tile::Solid(1);
    module[2][4] = Tile::Solid(1);
    module[3][4] = Tile::Solid(1);
    module[5][5] = Tile::Solid(1);
    module[6][5] = Tile::Start(0);
    module[0][6] = Tile::Solid(1);
    module[2][6] = Tile::Leave;
    module[3][6] = Tile::Solid(0);
    assert_eq!(spawn_row(&module, 3), Some(1));
    assert_eq!(spawn_row(&module, 4), Some(3));
    assert_eq!(spawn_row(&module, 5), None);
    assert_eq!(spawn_row(&module, 6), Some(3));
    assert_eq!(spawn_row(&module, 7), None);
    assert_eq!(find_spawn_in(&module, &vec![7, 5, 4, 3]), Some((4, 3)));
    assert_eq!(find_spawn_in(&module, &vec![3, 4]), Some((3, 1)));
    assert_eq!(find_spawn_in(&module, &vec![0, 5, 7]), None);
    assert_eq!(find_spawn_in(&module, &Vec::new()), None);
    let mut top = air();
    top[5][0] = Tile::Solid(1);
    assert_eq!(spawn_row(&top, 0), Some(5));
    top[5][0] = Tile::Air;
    top[6][0] = Tile::Solid(1);
    assert_eq!(spawn_row(&top, 0), None);
}

#[test]
fn spawn_column_is_picked_by_chance() {
    let module = floor();
    let mut seen = [false; GRID_WIDTH];
    for _ in 0..400 {
        let (col, row) = find_spawn_location(module).unwrap();
        assert_eq!(row, 0);
        assert!(col < GRID_WIDTH);
        seen[col] = true;
    }
    assert!(seen.iter().filter(|hit| **hit).count() > 8);
    assert_eq!(find_spawn_location(air()), None);
    assert_eq!(find_spawn_location(solid(4)), None);
    let mut one = solid(4);
    one[6][20] = Tile::Air;
    one[7][20] = Tile::Air;
    for _ in 0..20 {
        assert_eq!(find_spawn_location(one), Some((20, 5)));
    }
}

#[test]
fn world_runs() {
    let mut module = floor();
    module[3] = [Tile::Solid(4); GRID_WIDTH];
    let mut world = MainState::new(
        vec![module, floor()],
        PlayerConfig::default(),
        GridConfig { death_threshold: 990, erosion_chance: 1000, ..GridConfig::default() },
    );
    world.button(Button::Keyboard(Keycode::Up), true);
    world.button(Button::Keyboard(Keycode::W), true);
    world.button(Button::Keyboard(Keycode::Tab), true);
    world.button(Button::Keyboard(Keycode::Comma), true);
    world.button(Button::Keyboard(Keycode::Right), true);
    world.button(Button::Keyboard(Keycode::A), true);
    world.players[0].as_mut().unwrap().ready = true;
    world.players[1].as_mut().unwrap().ready = true;
    let mut shots: usize = 0;
    let mut cycles: usize = 0;
    for frame in 0..3000 {
        if frame % 40 == 0 {
            world.button(Button::Keyboard(Keycode::Up), true);
            world.button(Button::Keyboard(Keycode::W), true);
        }
        if frame % 40 == 5 {
            world.button(Button::Keyboard(Keycode::Up), false);
            world.button(Button::Keyboard(Keycode::W), false);
        }
        world.update(1);
        assert!(!world.in_menu);
        assert_eq!(world.grids.len(), GRID_COUNT);
        assert_eq!(world.players.len(), MAX_PLAYERS);
        for grid in world.grids.iter() {
            assert!(grid.tiles_alive <= grid.total_tiles);
            let count: usize =
                grid.module.iter().flatten().filter(|tile| **tile != Tile::Air).count();
            assert_eq!(grid.tiles_alive, count);
        }
        for bullet in world.bullets.iter() {
            assert!(bullet.is_alive);
        }
        for (i, slot) in world.players.iter().enumerate() {
            if let Some(player) = slot {
                assert_eq!(player.team, Team(i as u8));
                let placed = player.alive
                    && player.vel == (Vector2 { x: 0, y: 0 })
                    && player.acc == (Vector2 { x: 0, y: 0 });
                if placed {
                    assert_eq!((player.pos.x - 500) % 1000, 0);
                    assert!(player.pos.x >= 500 && player.pos.x <= 31_500);
                } else {
                    assert!(player.pos.x >= 0 && player.pos.x <= 31_200);
                    assert!(player.pos.y <= 23_200);
                }
                assert!(player.health() <= 4);
                assert!(player.lives <= 4);
            }
        }
        shots += world.sounds.iter().filter(|sound| **sound == SoundEffect::Shoot).count();
        cycles +=
            world.sounds.iter().filter(|sound| **sound == SoundEffect::GridFallOffscreen).count();
        world.sounds.clear();
    }
    assert!(shots > 100);
    assert!(cycles > 0);
    assert!(world.players[0].is_some());
    assert!(world.players[1].is_some());
}

#[test]
fn world_takes_on_well_formed_tunables_only() {
    let mut world = world_of(floor());
    let player_config = PlayerConfig { max_health: 9, ..PlayerConfig::default() };
    let grid_config = GridConfig { gap: 700, ..GridConfig::default() };
    assert!(world.configure(player_config, grid_config));
    assert_eq!(world.player_config, player_config);
    assert_eq!(world.grid_config, grid_config);
    let bad = GridConfig { no_spawn_threshold: 2000, ..grid_config };
    assert!(!world.configure(PlayerConfig::default(), bad));
    assert_eq!(world.player_config, player_config);
    assert_eq!(world.grid_config, grid_config);
    let flat = PlayerConfig { height: 0, ..player_config };
    assert!(!world.configure(flat, GridConfig::default()));
    assert_eq!(world.grid_config, grid_config);
}

#[test]
fn frame_runs_the_ticks_that_came_due() {
    let mut world = world_of(floor());
    world.grids[2].world_offset.y = 20_000;
    world.grid_config.erosion_chance = 0;
    let mut twin = world.clone();
    world.update(3);
    twin.fixed_update();
    twin.fixed_update();
    twin.fixed_update();
    assert_eq!(world.grids, twin.grids);
    assert_eq!(world.grids[2].velocity, -1248);
    assert_eq!(world.grids[2].world_offset.y, 20_000 - 6 - 13 - 20);
    assert!(world.in_menu);
}

#[test]
fn player_respawned_on_the_top_grid_is_brought_into_the_world_by_its_next_tick() {
    let mut world = world_of(air());
    world.grids[2] = Grid::new_from_module(24_000, floor());
    world.button(Button::Keyboard(Keycode::Up), true);
    world.respawn_players();
    let placed = world.players[0].unwrap();
    assert!(placed.alive);
    assert_eq!(placed.pos.y, 25_000);
    world.advance_players();
    assert_eq!(world.players[0].unwrap().pos.y, 23_200);
}

#[test]
fn erosion_at_full_chance_damages_one_tile_in_every_tick() {
    let config = GridConfig { erosion_chance: 1000, ..GridConfig::default() };
    let mut world = MainState::new(vec![solid(200)], PlayerConfig::default(), config);
    let health = |world: &MainState| -> usize {
        world
            .grids
            .iter()
            .flat_map(|grid| grid.module.iter().flatten())
            .map(|tile| match tile {
                Tile::Solid(h) => *h as usize,
                _ => 0,
            })
            .sum()
    };
    let mut before: usize = health(&world);
    assert_eq!(before, 768 * 200);
    for _ in 0..300 {
        world.erode();
        let now: usize = health(&world);
        assert_eq!(now + 1, before);
        before = now;
    }
    assert_eq!(living(&world), 768);
}
