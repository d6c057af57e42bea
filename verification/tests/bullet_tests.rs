use fall::bullet::Bullet;
use fall::config::PlayerConfig;
use fall::grid::{Grid, Module, Tile, GRID_HEIGHT, GRID_WIDTH};
use fall::math::{Point2, Rect, Vector2};
use fall::player::{wasd_controls, Player, Team};
use fall::sound::SoundEffect;

fn air() -> Module {
    [[Tile::Air; GRID_WIDTH]; GRID_HEIGHT]
}

fn empty_world() -> (Vec<Grid>, Vec<Option<Player>>) {
    let grids = vec![
        Grid::new_from_module(0, air()),
        Grid::new_from_module(8000, air()),
        Grid::new_from_module(16_000, air()),
    ];
    (grids, vec![None, None, None, None])
}

fn player_of(team: u8, x: i64, y: i64) -> Player {
    let mut player = Player::new(Team(team), wasd_controls(), &PlayerConfig::default());
    player.alive = true;
    player.pos = Point2 { x, y };
    player
}

fn tick(bullet: &mut Bullet, grids: &mut Vec<Grid>, players: &mut Vec<Option<Player>>, in_menu: bool)
    -> Vec<SoundEffect>
{
    let mut sounds: Vec<SoundEffect> = Vec::new();
    bullet.fixed_update(&mut sounds, grids, players, in_menu, &PlayerConfig::default());
    sounds
}

#[test]
fn new_bullet_is_alive() {
    let bullet = Bullet::new(Point2 { x: 1, y: 2 }, Vector2 { x: 3, y: 4 }, Team(2));
    assert_eq!(
        bullet,
        Bullet {
            pos: Point2 { x: 1, y: 2 },
            vel: Vector2 { x: 3, y: 4 },
            team: Team(2),
            is_alive: true
        }
    );
    assert_eq!(bullet.rect(), Rect { x: -99, y: 102, w: 200, h: 200 });
}

#[test]
fn bullet_flies_straight() {
    let (mut grids, mut players) = empty_world();
    let mut bullet =
        Bullet::new(Point2 { x: 5000, y: 5000 }, Vector2 { x: 30_000, y: -600 }, Team(0));
    let sounds = tick(&mut bullet, &mut grids, &mut players, false);
    assert_eq!(bullet.pos, Point2 { x: 5500, y: 4990 });
    assert_eq!(bullet.vel, Vector2 { x: 30_000, y: -600 });
    assert!(bullet.is_alive);
    assert!(sounds.is_empty());
}

#[test]
fn bullet_right_of_the_world_dies() {
    for vel in [-30_000i64, 0, 30_000, -59_999, 1_000_000] {
        let (mut grids, mut players) = empty_world();
        let mut bullet =
            Bullet::new(Point2 { x: 34_000, y: 5000 }, Vector2 { x: vel, y: 0 }, Team(0));
        tick(&mut bullet, &mut grids, &mut players, false);
        assert!(!bullet.is_alive);
    }
}

#[test]
fn bullet_dies_just_outside_the_world_only() {
    let (mut grids, mut players) = empty_world();
    let mut inside = Bullet::new(Point2 { x: 32_500, y: 5000 }, Vector2 { x: 30_000, y: 0 }, Team(0));
    tick(&mut inside, &mut grids, &mut players, false);
    assert_eq!(inside.pos.x, 33_000);
    assert!(inside.is_alive);
    tick(&mut inside, &mut grids, &mut players, false);
    assert_eq!(inside.pos.x, 33_500);
    assert!(!inside.is_alive);
    let mut left = Bullet::new(Point2 { x: -500, y: 5000 }, Vector2 { x: -30_000, y: 0 }, Team(0));
    tick(&mut left, &mut grids, &mut players, false);
    assert_eq!(left.pos.x, -1000);
    assert!(left.is_alive);
    tick(&mut left, &mut grids, &mut players, false);
    assert!(!left.is_alive);
    let mut back =
        Bullet::new(Point2 { x: 34_000, y: 5000 }, Vector2 { x: -120_000, y: 0 }, Team(0));
    tick(&mut back, &mut grids, &mut players, false);
    assert_eq!(back.pos.x, 32_000);
    assert!(back.is_alive);
}

#[test]
fn dead_bullet_stays_dead() {
    let (mut grids, mut players) = empty_world();
    let mut bullet =
        Bullet::new(Point2 { x: 5000, y: 5000 }, Vector2 { x: 30_000, y: 0 }, Team(0));
    bullet.is_alive = false;
    tick(&mut bullet, &mut grids, &mut players, false);
    assert!(!bullet.is_alive);
    assert_eq!(bullet.pos.x, 5500);
}

#[test]
fn bullet_on_a_solid_tile_damages_it_twice() {
    let (mut grids, mut players) = empty_world();
    grids[0].module[2][5] = Tile::Solid(4);
    grids[0] = Grid::new_from_module(0, grids[0].module);
    let mut bullet =
        Bullet::new(Point2 { x: 5000, y: 2300 }, Vector2 { x: 30_000, y: 0 }, Team(0));
    let sounds = tick(&mut bullet, &mut grids, &mut players, false);
    assert_eq!(grids[0].module[2][5], Tile::Solid(2));
    assert!(!bullet.is_alive);
    assert_eq!(sounds, vec![SoundEffect::DamageBlock]);
    assert_eq!(grids[0].tiles_alive, 1);
    assert_eq!(players, vec![None, None, None, None]);
}

#[test]
fn bullet_breaks_a_weak_tile() {
    for health in [1u8, 2] {
        let (mut grids, mut players) = empty_world();
        let mut module = air();
        module[2][5] = Tile::Solid(health);
        module[0][0] = Tile::Solid(4);
        grids[0] = Grid::new_from_module(0, module);
        let mut bullet =
            Bullet::new(Point2 { x: 5000, y: 2300 }, Vector2 { x: 30_000, y: 0 }, Team(0));
        let sounds = tick(&mut bullet, &mut grids, &mut players, false);
        assert_eq!(grids[0].module[2][5], Tile::Air);
        assert_eq!(grids[0].module[0][0], Tile::Solid(4));
        assert_eq!(grids[0].tiles_alive, 1);
        assert_eq!(grids[0].total_tiles, 2);
        assert!(!bullet.is_alive);
        assert_eq!(sounds, vec![SoundEffect::DamageBlockMore]);
    }
    let (mut grids, mut players) = empty_world();
    let mut module = air();
    module[2][5] = Tile::Solid(3);
    grids[0] = Grid::new_from_module(0, module);
    let mut bullet =
        Bullet::new(Point2 { x: 5000, y: 2300 }, Vector2 { x: 30_000, y: 0 }, Team(0));
    let sounds = tick(&mut bullet, &mut grids, &mut players, false);
    assert_eq!(grids[0].module[2][5], Tile::Solid(1));
    assert_eq!(sounds, vec![SoundEffect::DamageBlock]);
}

#[test]
fn bullet_damages_every_solid_tile_it_reaches() {
    let (mut grids, mut players) = empty_world();
    let mut low = air();
    low[7][5] = Tile::Solid(4);
    low[7][6] = Tile::Solid(1);
    let mut high = air();
    high[0][5] = Tile::Solid(0);
    high[0][6] = Tile::Solid(5);
    grids[0] = Grid::new_from_module(0, low);
    grids[1] = Grid::new_from_module(8000, high);
    let mut bullet =
        Bullet::new(Point2 { x: 5500, y: 7800 }, Vector2 { x: 30_000, y: 0 }, Team(0));
    let sounds = tick(&mut bullet, &mut grids, &mut players, false);
    assert_eq!(bullet.rect(), Rect { x: 5900, y: 7900, w: 200, h: 200 });
    assert_eq!(grids[0].module[7][5], Tile::Solid(2));
    assert_eq!(grids[0].module[7][6], Tile::Air);
    assert_eq!(grids[1].module[0][5], Tile::Solid(0));
    assert_eq!(grids[1].module[0][6], Tile::Solid(3));
    assert_eq!(grids[0].tiles_alive, 1);
    assert_eq!(grids[1].tiles_alive, 2);
    assert_eq!(
        sounds,
        vec![
            SoundEffect::DamageBlock,
            SoundEffect::DamageBlockMore,
            SoundEffect::BreakBlock,
            SoundEffect::DamageBlock,
        ]
    );
    assert!(!bullet.is_alive);
}

#[test]
fn bullet_damages_a_player_of_another_team() {
    let (mut grids, mut players) = empty_world();
    players[1] = Some(player_of(1, 5500, 2000));
    players[2] = Some(player_of(2, 20_000, 2000));
    let mut bullet =
        Bullet::new(Point2 { x: 5000, y: 2300 }, Vector2 { x: 30_000, y: 0 }, Team(0));
    tick(&mut bullet, &mut grids, &mut players, false);
    assert!(!bullet.is_alive);
    assert_eq!(players[1].unwrap().health(), 3);
    assert_eq!(players[2].unwrap().health(), 4);
    assert_eq!(players[0], None);
}

#[test]
fn bullet_passes_its_own_team() {
    let (mut grids, mut players) = empty_world();
    players[0] = Some(player_of(0, 5500, 2000));
    let before = players.clone();
    let mut bullet =
        Bullet::new(Point2 { x: 5000, y: 2300 }, Vector2 { x: 30_000, y: 0 }, Team(0));
    tick(&mut bullet, &mut grids, &mut players, false);
    assert!(bullet.is_alive);
    assert_eq!(players, before);
}

#[test]
fn bullet_kills_a_weak_player_once() {
    let (mut grids, mut players) = empty_world();
    let mut weak = player_of(1, 5500, 2000);
    weak.health = 1;
    players[1] = Some(weak);
    let mut first =
        Bullet::new(Point2 { x: 5000, y: 2300 }, Vector2 { x: 30_000, y: 0 }, Team(0));
    tick(&mut first, &mut grids, &mut players, false);
    assert!(!players[1].unwrap().alive);
    assert_eq!(players[1].unwrap().lives, 3);
    let mut second =
        Bullet::new(Point2 { x: 5000, y: 2300 }, Vector2 { x: 30_000, y: 0 }, Team(0));
    tick(&mut second, &mut grids, &mut players, false);
    assert!(!second.is_alive);
    assert_eq!(players[1].unwrap().lives, 3);
    assert_eq!(players[1].unwrap().health(), 0);
}

#[test]
fn start_tile_flips_readiness_in_the_menu() {
    let (mut grids, mut players) = empty_world();
    let mut module = air();
    module[2][5] = Tile::Start(0);
    grids[0] = Grid::new_from_module(0, module);
    players[3] = Some(player_of(3, 20_000, 20_000));
    let shot = Bullet::new(Point2 { x: 5000, y: 2300 }, Vector2 { x: 30_000, y: 0 }, Team(3));
    let mut bullet = shot;
    let sounds = tick(&mut bullet, &mut grids, &mut players, true);
    assert!(!bullet.is_alive);
    assert!(players[3].unwrap().ready);
    assert!(sounds.is_empty());
    assert_eq!(grids[0].module[2][5], Tile::Start(0));
    let mut bullet = shot;
    tick(&mut bullet, &mut grids, &mut players, true);
    assert!(!players[3].unwrap().ready);
    let mut bullet = shot;
    tick(&mut bullet, &mut grids, &mut players, false);
    assert!(!bullet.is_alive);
    assert!(!players[3].unwrap().ready);
}

#[test]
fn leave_tile_frees_the_slot_in_the_menu() {
    let (mut grids, mut players) = empty_world();
    let mut module = air();
    module[2][5] = Tile::Leave;
    grids[0] = Grid::new_from_module(0, module);
    players[2] = Some(player_of(2, 20_000, 20_000));
    players[3] = Some(player_of(3, 20_000, 20_000));
    let shot = Bullet::new(Point2 { x: 5000, y: 2300 }, Vector2 { x: 30_000, y: 0 }, Team(3));
    let mut bullet = shot;
    tick(&mut bullet, &mut grids, &mut players, false);
    assert!(!bullet.is_alive);
    assert!(players[3].is_some());
    let mut bullet = shot;
    tick(&mut bullet, &mut grids, &mut players, true);
    assert!(!bullet.is_alive);
    assert_eq!(players[3], None);
    assert!(players[2].is_some());
    assert_eq!(grids[0].module[2][5], Tile::Leave);
}
