use fall::bullet::Bullet;
use fall::config::PlayerConfig;
use fall::grid::{Grid, Module, Tile, GRID_HEIGHT, GRID_WIDTH};
use fall::math::{Point2, Rect, Vector2};
use fall::player::{
    arrow_controls, joycon_controls, wasd_controls, Axis, Button, ControlState, Controls,
    JumpState, Keycode, PadAxis, PadButton, Player, Team,
};
use fall::sound::SoundEffect;

fn air() -> Module {
    [[Tile::Air; GRID_WIDTH]; GRID_HEIGHT]
}

fn floor() -> Module {
    let mut module = air();
    module[0] = [Tile::Solid(4); GRID_WIDTH];
    module
}

fn alive_at(x: i64, y: i64) -> Player {
    let config = PlayerConfig::default();
    let mut player = Player::new(Team(0), wasd_controls(), &config);
    player.alive = true;
    player.pos = Point2 { x, y };
    player
}

#[test]
fn default_player_config() {
    let config = PlayerConfig::default();
    assert_eq!(config.max_health, 4);
    assert_eq!(config.max_lives, 4);
    assert_eq!(config.width, 800);
    assert_eq!(config.height, 800);
    assert_eq!(config.shoot_offset_x, 533);
    assert_eq!(config.shoot_offset_y, 533);
    assert_eq!(config.jump_power, 16_000);
    assert_eq!(config.second_jump_power, 16_000);
    assert!(config.is_wf());
    assert!(!PlayerConfig { width: 0, ..config }.is_wf());
    assert!(!PlayerConfig { jump_power: 1_000_000_000_000, ..config }.is_wf());
}

#[test]
fn new_player_waits_at_full_strength() {
    let config = PlayerConfig { max_health: 3, max_lives: 7, ..PlayerConfig::default() };
    let player = Player::new(Team(2), arrow_controls(), &config);
    assert_eq!(player.team, Team(2));
    assert_eq!(player.controls, arrow_controls());
    assert_eq!(player.control_state, ControlState::default());
    assert_eq!(player.pos, Point2 { x: 0, y: 0 });
    assert_eq!(player.vel, Vector2 { x: 0, y: 0 });
    assert_eq!(player.acc, Vector2 { x: 0, y: 0 });
    assert_eq!(player.health(), 3);
    assert_eq!(player.lives, 7);
    assert_eq!(player.cooldown, 0);
    assert!(!player.alive);
    assert!(player.grounded);
    assert_eq!(player.frames_since_grounded, 0);
    assert_eq!(player.jump, JumpState::Double);
    assert!(!player.ready);
}

#[test]
fn damage_takes_one_health() {
    let mut player = alive_at(0, 0);
    player.damage();
    assert_eq!(player.health(), 3);
    assert!(player.alive);
    assert_eq!(player.lives, 4);
}

#[test]
fn last_damage_kills_once() {
    let mut player = alive_at(0, 0);
    player.health = 1;
    player.damage();
    assert_eq!(player.health(), 0);
    assert!(!player.alive);
    assert_eq!(player.lives, 3);
    let dead = player;
    player.damage();
    assert_eq!(player, dead);
    player.damage();
    assert_eq!(player.lives, 3);
    assert_eq!(player.health(), 0);
}

#[test]
fn kill_takes_a_life_from_the_living_only() {
    let mut player = alive_at(0, 0);
    player.health = 0;
    player.lives = 1;
    player.kill();
    assert!(!player.alive);
    assert_eq!(player.lives, 0);
    player.kill();
    assert_eq!(player.lives, 0);
    player.alive = true;
    player.kill();
    assert_eq!(player.lives, 0);
    assert!(!player.alive);
}

#[test]
fn player_takes_up_its_rectangle() {
    let config = PlayerConfig::default();
    let player = alive_at(5000, 7000);
    assert_eq!(player.rect(&config), Rect { x: 4500, y: 7000, w: 800, h: 800 });
}

#[test]
fn respawn_fails_without_a_clear_tile_and_changes_nothing() {
    let config = PlayerConfig::default();
    let mut player = Player::new(Team(1), wasd_controls(), &config);
    player.health = 0;
    player.pos = Point2 { x: 123, y: -456 };
    player.vel = Vector2 { x: 7, y: 8 };
    let before = player;
    let empty = Grid::new_from_module(0, air());
    assert!(!player.respawn(&empty, &config));
    assert_eq!(player, before);
    let full = Grid::new_from_module(0, [[Tile::Solid(4); GRID_WIDTH]; GRID_HEIGHT]);
    assert!(!player.respawn(&full, &config));
    assert_eq!(player, before);
    let mut high = air();
    high[6] = [Tile::Solid(4); GRID_WIDTH];
    assert!(!player.respawn(&Grid::new_from_module(0, high), &config));
    let mut markers = air();
    markers[0] = [Tile::Start(0); GRID_WIDTH];
    assert!(!player.respawn(&Grid::new_from_module(0, markers), &config));
    assert_eq!(player, before);
}

#[test]
fn respawn_puts_the_player_above_the_middle_of_a_clear_tile() {
    let config = PlayerConfig::default();
    let grid = Grid::new_from_module(8000, floor());
    for _ in 0..50 {
        let mut player = Player::new(Team(1), wasd_controls(), &config);
        player.health = 0;
        player.lives = 2;
        player.vel = Vector2 { x: 7, y: 8 };
        player.acc = Vector2 { x: 9, y: 10 };
        assert!(player.respawn(&grid, &config));
        assert!(player.alive);
        assert_eq!(player.health(), 4);
        assert_eq!(player.lives, 2);
        assert_eq!(player.vel, Vector2 { x: 0, y: 0 });
        assert_eq!(player.acc, Vector2 { x: 0, y: 0 });
        assert_eq!(player.pos.y, 9000);
        assert!(player.pos.x >= 500 && player.pos.x <= 31_500);
        assert_eq!((player.pos.x - 500) % 1000, 0);
    }
}

#[test]
fn respawn_on_the_only_clear_tile() {
    let config = PlayerConfig::default();
    let mut module = [[Tile::Solid(4); GRID_WIDTH]; GRID_HEIGHT];
    module[4][9] = Tile::Air;
    module[5][9] = Tile::Air;
    let grid = Grid::new_from_module(0, module);
    let mut player = Player::new(Team(0), wasd_controls(), &config);
    assert!(player.respawn(&grid, &config));
    assert_eq!(player.pos, Point2 { x: 9500, y: 4000 });
}

#[test]
fn respawn_at_a_given_place() {
    let config = PlayerConfig::default();
    let grid = Grid::new_from_module(0, floor());
    let mut player = Player::new(Team(0), wasd_controls(), &config);
    let before = player;
    assert!(!player.respawn_at(&grid, None, &config));
    assert_eq!(player, before);
    assert!(player.respawn_at(&grid, Some((3, 0)), &config));
    assert_eq!(player.pos, Point2 { x: 3500, y: 1000 });
    assert!(player.alive);
}

#[test]
fn dead_player_does_not_act() {
    let config = PlayerConfig::default();
    let mut player = Player::new(Team(0), wasd_controls(), &config);
    player.control_state.jump = true;
    player.control_state.shoot = true;
    player.pos.y = -5000;
    let before = player;
    let mut bullets: Vec<Bullet> = Vec::new();
    let mut sounds: Vec<SoundEffect> = Vec::new();
    player.update(&mut bullets, &mut sounds, &config);
    player.fixed_update(&[], &config);
    assert_eq!(player, before);
    assert!(bullets.is_empty());
    assert!(sounds.is_empty());
}

#[test]
fn jump_charges_are_used_on_fresh_presses_only() {
    let config = PlayerConfig { second_jump_power: 12_000, ..PlayerConfig::default() };
    let mut player = alive_at(5000, 5000);
    let mut bullets: Vec<Bullet> = Vec::new();
    let mut sounds: Vec<SoundEffect> = Vec::new();
    player.control_state.jump = true;
    player.update(&mut bullets, &mut sounds, &config);
    assert_eq!(player.jump, JumpState::Single);
    assert_eq!(player.acc, Vector2 { x: 0, y: 960_000 });
    assert!(!player.grounded);
    assert_eq!(sounds, vec![SoundEffect::Jump]);
    assert!(player.control_state.this_jump_frame);
    assert!(!player.control_state.last_jump_frame);

    player.acc.y = 0;
    player.update(&mut bullets, &mut sounds, &config);
    assert_eq!(player.jump, JumpState::Single);
    assert_eq!(player.acc.y, 0);
    assert_eq!(sounds.len(), 1);
    assert!(player.control_state.last_jump_frame);

    player.control_state.jump = false;
    player.update(&mut bullets, &mut sounds, &config);
    player.control_state.jump = true;
    player.update(&mut bullets, &mut sounds, &config);
    assert_eq!(player.jump, JumpState::Spent);
    assert_eq!(player.acc.y, 720_000);
    assert_eq!(sounds, vec![SoundEffect::Jump, SoundEffect::SecondJump]);

    player.acc.y = -1;
    player.control_state.jump = false;
    player.update(&mut bullets, &mut sounds, &config);
    player.control_state.jump = true;
    player.update(&mut bullets, &mut sounds, &config);
    assert_eq!(player.jump, JumpState::Spent);
    assert_eq!(player.acc.y, -1);
    assert_eq!(sounds.len(), 2);
    assert!(bullets.is_empty());
}

#[test]
fn landing_restores_the_charges() {
    let config = PlayerConfig::default();
    let mut player = alive_at(5000, 5000);
    player.jump = JumpState::Spent;
    player.grounded = true;
    player.frames_since_grounded = 4;
    let mut bullets: Vec<Bullet> = Vec::new();
    let mut sounds: Vec<SoundEffect> = Vec::new();
    player.update(&mut bullets, &mut sounds, &config);
    assert_eq!(player.jump, JumpState::Double);
    assert_eq!(sounds, vec![SoundEffect::Land]);

    let mut short = alive_at(5000, 5000);
    short.jump = JumpState::Spent;
    short.frames_since_grounded = 3;
    sounds.clear();
    short.update(&mut bullets, &mut sounds, &config);
    assert_eq!(short.jump, JumpState::Spent);
    assert!(sounds.is_empty());
}

#[test]
fn long_fall_costs_the_first_charge() {
    let config = PlayerConfig::default();
    let mut player = alive_at(5000, 5000);
    player.grounded = false;
    player.frames_since_grounded = 4;
    let mut bullets: Vec<Bullet> = Vec::new();
    let mut sounds: Vec<SoundEffect> = Vec::new();
    player.update(&mut bullets, &mut sounds, &config);
    assert_eq!(player.jump, JumpState::Single);
    player.update(&mut bullets, &mut sounds, &config);
    assert_eq!(player.jump, JumpState::Single);
    assert!(sounds.is_empty());
}

#[test]
fn jump_after_a_long_fall_uses_both_charges() {
    let config = PlayerConfig::default();
    let mut player = alive_at(5000, 5000);
    player.grounded = false;
    player.frames_since_grounded = 9;
    player.jump = JumpState::Single;
    player.control_state.jump = true;
    let mut bullets: Vec<Bullet> = Vec::new();
    let mut sounds: Vec<SoundEffect> = Vec::new();
    player.update(&mut bullets, &mut sounds, &config);
    assert_eq!(player.jump, JumpState::Spent);
    assert_eq!(sounds, vec![SoundEffect::SecondJump]);
}

#[test]
fn shot_leaves_from_the_muzzle_and_starts_the_cooldown() {
    let config = PlayerConfig::default();
    let mut player = alive_at(10_000, 5000);
    player.team = Team(3);
    player.control_state.shoot = true;
    player.control_state.facing = 1;
    let mut bullets: Vec<Bullet> = Vec::new();
    let mut sounds: Vec<SoundEffect> = Vec::new();
    player.update(&mut bullets, &mut sounds, &config);
    assert_eq!(
        bullets,
        vec![Bullet {
            pos: Point2 { x: 10_933, y: 5533 },
            vel: Vector2 { x: 30_000, y: 0 },
            team: Team(3),
            is_alive: true,
        }]
    );
    assert_eq!(player.cooldown, 18);
    assert_eq!(sounds, vec![SoundEffect::Shoot]);
    player.update(&mut bullets, &mut sounds, &config);
    assert_eq!(bullets.len(), 1);
    assert_eq!(player.cooldown, 18);

    player.cooldown = 0;
    player.control_state.facing = -1;
    player.update(&mut bullets, &mut sounds, &config);
    assert_eq!(bullets.len(), 2);
    assert_eq!(bullets[1].pos, Point2 { x: 9867, y: 5533 });
    assert_eq!(bullets[1].vel, Vector2 { x: -30_000, y: 0 });
}

#[test]
fn weapon_cools_tick_by_tick() {
    let config = PlayerConfig::default();
    let mut player = alive_at(10_000, 5000);
    player.cooldown = 18;
    for left in (0..18).rev() {
        player.fixed_update(&[], &config);
        assert_eq!(player.cooldown, left);
    }
    player.fixed_update(&[], &config);
    assert_eq!(player.cooldown, 0);
}

#[test]
fn axis_pushes_the_player() {
    let config = PlayerConfig::default();
    let mut player = alive_at(10_000, 5000);
    player.control_state.r_pressed = true;
    let mut bullets: Vec<Bullet> = Vec::new();
    let mut sounds: Vec<SoundEffect> = Vec::new();
    player.update(&mut bullets, &mut sounds, &config);
    assert_eq!(player.control_state.lr, 1000);
    assert_eq!(player.acc.x, 60_000);
    player.update(&mut bullets, &mut sounds, &config);
    assert_eq!(player.acc.x, 120_000);
    player.control_state.l_pressed = true;
    player.update(&mut bullets, &mut sounds, &config);
    assert_eq!(player.control_state.lr, 0);
    assert_eq!(player.acc.x, 120_000);
    player.control_state.r_pressed = false;
    player.update(&mut bullets, &mut sounds, &config);
    assert_eq!(player.control_state.lr, -1000);
    assert_eq!(player.acc.x, 60_000);
}

#[test]
fn player_below_the_floor_of_the_world_takes_damage() {
    let config = PlayerConfig::default();
    let mut player = alive_at(10_000, -1001);
    let mut bullets: Vec<Bullet> = Vec::new();
    let mut sounds: Vec<SoundEffect> = Vec::new();
    player.update(&mut bullets, &mut sounds, &config);
    assert_eq!(player.health(), 3);
    player.update(&mut bullets, &mut sounds, &config);
    player.update(&mut bullets, &mut sounds, &config);
    assert!(player.alive);
    player.update(&mut bullets, &mut sounds, &config);
    assert_eq!(player.health(), 0);
    assert!(!player.alive);
    assert_eq!(player.lives, 3);
    player.update(&mut bullets, &mut sounds, &config);
    assert_eq!(player.lives, 3);
    let mut edge = alive_at(10_000, -1000);
    edge.update(&mut bullets, &mut sounds, &config);
    assert_eq!(edge.health(), 4);
}

#[test]
fn player_falls_under_gravity() {
    let config = PlayerConfig::default();
    let mut player = alive_at(5000, 10_000);
    player.acc = Vector2 { x: 0, y: -20_000 };
    player.fixed_update(&[Grid::new_from_module(0, air())], &config);
    assert_eq!(player.vel, Vector2 { x: 0, y: -331 });
    assert_eq!(player.pos, Point2 { x: 5000, y: 9995 });
    assert_eq!(player.acc, Vector2 { x: 0, y: -20_000 });
    assert!(!player.grounded);
    assert_eq!(player.frames_since_grounded, 0);
    player.fixed_update(&[Grid::new_from_module(0, air())], &config);
    assert_eq!(player.vel, Vector2 { x: 0, y: -660 });
    assert_eq!(player.pos, Point2 { x: 5000, y: 9984 });
    assert_eq!(player.frames_since_grounded, 1);
}

#[test]
fn player_lands_on_the_ground() {
    let config = PlayerConfig::default();
    let grids = vec![Grid::new_from_module(0, floor())];
    let mut player = alive_at(5000, 1005);
    player.vel = Vector2 { x: 0, y: -600 };
    player.acc = Vector2 { x: 0, y: -20_000 };
    player.grounded = false;
    player.frames_since_grounded = 7;
    player.fixed_update(&grids, &config);
    assert_eq!(player.pos, Point2 { x: 5000, y: 1010 });
    assert_eq!(player.vel, Vector2 { x: 0, y: 0 });
    assert!(player.grounded);
    assert_eq!(player.frames_since_grounded, 8);
    assert_eq!(player.acc, Vector2 { x: 0, y: -20_000 });
}

#[test]
fn player_is_stopped_by_a_wall() {
    let config = PlayerConfig::default();
    let mut module = air();
    module[2][7] = Tile::Solid(4);
    let grids = vec![Grid::new_from_module(0, module)];
    let mut player = alive_at(6150, 2100);
    player.vel = Vector2 { x: 6000, y: 0 };
    player.fixed_update(&grids, &config);
    assert_eq!(player.vel, Vector2 { x: 0, y: 0 });
    assert_eq!(player.pos, Point2 { x: 6190, y: 2100 });
    assert!(!player.grounded);
}

#[test]
fn player_is_held_inside_the_world() {
    let config = PlayerConfig::default();
    let mut right = alive_at(31_900, 5000);
    right.vel = Vector2 { x: 6000, y: 0 };
    right.fixed_update(&[], &config);
    assert_eq!(right.pos.x, 31_200);
    assert_eq!(right.vel.x, 5700);
    let mut left = alive_at(10, 5000);
    left.vel = Vector2 { x: -6000, y: 0 };
    left.fixed_update(&[], &config);
    assert_eq!(left.pos.x, 0);
    let mut top = alive_at(5000, 23_900);
    top.vel = Vector2 { x: 0, y: 6000 };
    top.fixed_update(&[], &config);
    assert_eq!(top.pos.y, 23_200);
    let mut bottom = alive_at(5000, -50_000);
    bottom.fixed_update(&[], &config);
    assert_eq!(bottom.pos.y, -50_000);
}

#[test]
fn button_moves_the_controls_bound_to_it() {
    let config = PlayerConfig::default();
    let mut player = Player::new(Team(0), wasd_controls(), &config);
    assert!(player.button(Button::Keyboard(Keycode::W), true));
    assert!(player.control_state.jump);
    assert!(player.button(Button::Keyboard(Keycode::W), false));
    assert!(!player.control_state.jump);
    assert!(player.button(Button::Keyboard(Keycode::Tab), true));
    assert!(player.control_state.shoot);
    assert!(player.button(Button::Keyboard(Keycode::A), true));
    assert!(player.control_state.l_pressed);
    assert_eq!(player.control_state.facing, -1);
    assert!(player.button(Button::Keyboard(Keycode::D), true));
    assert!(player.control_state.r_pressed);
    assert_eq!(player.control_state.facing, 1);
    assert!(player.button(Button::Keyboard(Keycode::D), false));
    assert_eq!(player.control_state.facing, -1);
    assert!(player.button(Button::Keyboard(Keycode::A), false));
    assert_eq!(player.control_state.facing, -1);
    let before = player;
    assert!(!player.button(Button::Keyboard(Keycode::Up), true));
    assert!(!player.button(Button::Controller(0, PadButton::A), true));
    assert!(!player.button(Button::Keyboard(Keycode::Other(77)), true));
    assert_eq!(player, before);
}

#[test]
fn one_button_may_drive_several_controls() {
    let config = PlayerConfig::default();
    let key = Button::Keyboard(Keycode::Other(5));
    let controls = Controls { lr: Axis::Buttons(key, key), jump: key, shoot: key };
    let mut player = Player::new(Team(0), controls, &config);
    assert!(player.button(key, true));
    assert!(player.control_state.jump);
    assert!(player.control_state.shoot);
    assert!(player.control_state.l_pressed);
    assert!(player.control_state.r_pressed);
    assert_eq!(player.control_state.facing, 1);
    assert!(player.button(key, false));
    assert_eq!(player.control_state.facing, 1);
    assert!(!player.control_state.l_pressed);
    assert!(!player.control_state.r_pressed);
}

#[test]
fn analog_axis_sets_deflection_and_facing() {
    let config = PlayerConfig::default();
    let mut player = Player::new(Team(0), joycon_controls(3), &config);
    let axis = Axis::Analog(3, PadAxis::LeftX);
    player.axis(axis, i16::MAX);
    assert_eq!(player.control_state.lr, 1000);
    assert_eq!(player.control_state.facing, 1);
    player.axis(axis, -16_384);
    assert_eq!(player.control_state.lr, -500);
    assert_eq!(player.control_state.facing, -1);
    player.axis(axis, 3276);
    assert_eq!(player.control_state.lr, 99);
    assert_eq!(player.control_state.facing, -1);
    player.axis(axis, 3277);
    assert_eq!(player.control_state.lr, 100);
    assert_eq!(player.control_state.facing, 1);
    player.axis(axis, i16::MIN);
    assert_eq!(player.control_state.lr, -1000);
    assert_eq!(player.control_state.facing, -1);
    let before = player;
    player.axis(Axis::Analog(4, PadAxis::LeftX), 20_000);
    player.axis(Axis::Analog(3, PadAxis::Other(1)), 20_000);
    assert_eq!(player, before);
    let mut bullets: Vec<Bullet> = Vec::new();
    let mut sounds: Vec<SoundEffect> = Vec::new();
    player.alive = true;
    player.update(&mut bullets, &mut sounds, &config);
    assert_eq!(player.control_state.lr, -1000);
    assert_eq!(player.acc.x, -60_000);
}

#[test]
fn stock_controls() {
    assert_eq!(
        wasd_controls(),
        Controls {
            lr: Axis::Buttons(Button::Keyboard(Keycode::A), Button::Keyboard(Keycode::D)),
            jump: Button::Keyboard(Keycode::W),
            shoot: Button::Keyboard(Keycode::Tab),
        }
    );
    assert_eq!(
        arrow_controls(),
        Controls {
            lr: Axis::Buttons(Button::Keyboard(Keycode::Left), Button::Keyboard(Keycode::Right)),
            jump: Button::Keyboard(Keycode::Up),
            shoot: Button::Keyboard(Keycode::Comma),
        }
    );
    assert_eq!(
        joycon_controls(2),
        Controls {
            lr: Axis::Analog(2, PadAxis::LeftX),
            jump: Button::Controller(2, PadButton::A),
            shoot: Button::Controller(2, PadButton::B),
        }
    );
}
