//! The player: controls, jump charges, health and lives, and motion against
//! the terrain.

use vstd::prelude::*;
use crate::bullet::Bullet;
use crate::collide::{
    colliders_of, get_overlapping_tiles, grids_wf, resolve_all_horiz, resolve_all_vert,
    resolve_colliders_horiz, resolve_colliders_vert,
};
use crate::config::{PlayerConfig, WORLD_HEIGHT, WORLD_WIDTH};
use crate::grid::{Grid, GridCoord, GRID_HEIGHT, GRID_WIDTH, TILE_SIZE};
use crate::math::{
    clamp, clamp_spec, div_toward_zero, lemma_scaled_bounds, per_tick, rate_per_tick,
    rect_from_point, saturate, saturating_sum, scale, scaled, Point2, Rect, Vector2, WorldCoord,
    COORD_LIMIT, TICKS_PER_SECOND,
};
use crate::sound::SoundEffect;
use crate::spawn::{find_spawn_location, has_spawn, lowest_spawn};

verus! {

#[derive(Debug, PartialEq, Eq, Structural, Clone, Copy)]
pub struct Team(pub u8);

/// A key of the keyboard: the keys that the stock bindings use, and every
/// other key by its code.
#[derive(Debug, PartialEq, Eq, Structural, Clone, Copy)]
pub enum Keycode {
    A,
    D,
    W,
    Tab,
    Left,
    Right,
    Up,
    Comma,
    Other(i32),
}

/// A button of a controller.
#[derive(Debug, PartialEq, Eq, Structural, Clone, Copy)]
pub enum PadButton {
    A,
    B,
    Other(i32),
}

/// An axis of a controller.
#[derive(Debug, PartialEq, Eq, Structural, Clone, Copy)]
pub enum PadAxis {
    LeftX,
    Other(i32),
}

#[derive(Debug, PartialEq, Eq, Structural, Clone, Copy)]
pub enum Button {
    Keyboard(Keycode),
    /// A button of the controller with the given id.
    Controller(i32, PadButton),
}

#[derive(Debug, PartialEq, Eq, Structural, Clone, Copy)]
pub enum Axis {
    /// A button for left and one for right.
    Buttons(Button, Button),
    /// An axis of the controller with the given id.
    Analog(i32, PadAxis),
}

#[derive(Debug, PartialEq, Eq, Structural, Clone, Copy)]
pub struct Controls {
    pub lr: Axis,
    pub jump: Button,
    pub shoot: Button,
}

/// Full deflection of the left-right axis.
pub const FULL_AXIS: i16 = 1000;

#[derive(Copy, Clone, Debug, PartialEq, Eq, Structural)]
pub struct ControlState {
    /// Deflection of the left-right axis in thousandths, left negative.
    pub lr: i16,
    /// Whether the jump button is down; follows every press and release.
    pub jump: bool,
    /// `jump` as the latest frame saw it.
    pub this_jump_frame: bool,
    /// `jump` as the frame before saw it.
    pub last_jump_frame: bool,
    pub shoot: bool,
    pub l_pressed: bool,
    pub r_pressed: bool,
    /// Sign of the direction looked in: negative left, positive right.
    pub facing: i8,
}

impl Default for ControlState {
    fn default() -> (state: ControlState)
        ensures
            state == (ControlState {
                lr: 0,
                jump: false,
                this_jump_frame: false,
                last_jump_frame: false,
                shoot: false,
                l_pressed: false,
                r_pressed: false,
                facing: 0,
            }),
    {
        ControlState {
            lr: 0,
            jump: false,
            this_jump_frame: false,
            last_jump_frame: false,
            shoot: false,
            l_pressed: false,
            r_pressed: false,
            facing: 0,
        }
    }
}

/// Jumps left before the player has to touch ground again.
#[derive(Debug, Eq, PartialEq, Structural, Clone, Copy)]
pub enum JumpState {
    Double,
    Single,
    Spent,
}

/// Half the edge of a tile.
pub const HALF_TILE: WorldCoord = 500;

/// Raw axis values up to this, a tenth of full deflection, do not turn the
/// player.
pub const AXIS_DEAD_ZONE: i16 = 3276;

/// The controls of the controller with the given id.
pub fn joycon_controls(id: i32) -> (controls: Controls)
    ensures
        controls == (Controls {
            lr: Axis::Analog(id, PadAxis::LeftX),
            jump: Button::Controller(id, PadButton::A),
            shoot: Button::Controller(id, PadButton::B),
        }),
{
    Controls {
        lr: Axis::Analog(id, PadAxis::LeftX),
        jump: Button::Controller(id, PadButton::A),
        shoot: Button::Controller(id, PadButton::B),
    }
}

/// The controls on the keys W, A, D and Tab.
pub open spec fn spec_wasd_controls() -> Controls {
    Controls {
        lr: Axis::Buttons(Button::Keyboard(Keycode::A), Button::Keyboard(Keycode::D)),
        jump: Button::Keyboard(Keycode::W),
        shoot: Button::Keyboard(Keycode::Tab),
    }
}

#[verifier::when_used_as_spec(spec_wasd_controls)]
pub fn wasd_controls() -> (controls: Controls)
    ensures
        controls == spec_wasd_controls(),
{
    Controls {
        lr: Axis::Buttons(Button::Keyboard(Keycode::A), Button::Keyboard(Keycode::D)),
        jump: Button::Keyboard(Keycode::W),
        shoot: Button::Keyboard(Keycode::Tab),
    }
}

/// The controls on the arrow keys and the comma.
pub open spec fn spec_arrow_controls() -> Controls {
    Controls {
        lr: Axis::Buttons(Button::Keyboard(Keycode::Left), Button::Keyboard(Keycode::Right)),
        jump: Button::Keyboard(Keycode::Up),
        shoot: Button::Keyboard(Keycode::Comma),
    }
}

#[verifier::when_used_as_spec(spec_arrow_controls)]
pub fn arrow_controls() -> (controls: Controls)
    ensures
        controls == spec_arrow_controls(),
{
    Controls {
        lr: Axis::Buttons(Button::Keyboard(Keycode::Left), Button::Keyboard(Keycode::Right)),
        jump: Button::Keyboard(Keycode::Up),
        shoot: Button::Keyboard(Keycode::Comma),
    }
}

/// Frames off the ground after which a landing counts as one.
pub const GROUNDED_FRAMES: u8 = 3;

/// Share of the horizontal velocity that is left after a tick, as
/// `DAMPING_X / DAMPING_X_OF`.
pub const DAMPING_X: WorldCoord = 19;

pub const DAMPING_X_OF: WorldCoord = 20;

/// Share of the vertical velocity that is left after a tick, as
/// `DAMPING_Y / DAMPING_Y_OF`.
pub const DAMPING_Y: WorldCoord = 199;

pub const DAMPING_Y_OF: WorldCoord = 200;

/// Ticks between two shots.
pub const SHOOT_COOLDOWN: u32 = 18;

/// Speed of a bullet.
pub const BULLET_SPEED: WorldCoord = 30_000;

/// Downward acceleration of a player.
pub const GRAVITY: WorldCoord = -20_000;

/// A player below this height has fallen out of the world.
pub const WORLD_FLOOR: WorldCoord = -1000;

#[derive(Debug, Clone, Copy, PartialEq, Eq, Structural)]
pub struct Player {
    pub team: Team,
    pub controls: Controls,
    pub control_state: ControlState,
    pub pos: Point2,
    pub vel: Vector2,
    pub acc: Vector2,
    pub health: u8,
    pub lives: u8,
    /// Ticks until the next shot may be fired.
    pub cooldown: u32,
    pub alive: bool,
    pub grounded: bool,
    pub frames_since_grounded: u8,
    pub jump: JumpState,
    pub ready: bool,
}

impl Player {
    /// Position, velocity and acceleration are within the coordinate limit.
    pub open spec fn wf(&self) -> bool {
        &&& self.pos.wf()
        &&& self.vel.wf()
        &&& self.acc.wf()
    }

    /// A player that has joined but not yet entered play: at full health and
    /// lives, not alive, at rest at the origin.
    pub open spec fn joined(team: Team, controls: Controls, config: &PlayerConfig) -> Player {
        Player {
            team,
            controls,
            control_state: ControlState {
                lr: 0,
                jump: false,
                this_jump_frame: false,
                last_jump_frame: false,
                shoot: false,
                l_pressed: false,
                r_pressed: false,
                facing: 0,
            },
            pos: Point2 { x: 0, y: 0 },
            vel: Vector2 { x: 0, y: 0 },
            acc: Vector2 { x: 0, y: 0 },
            health: config.max_health,
            lives: config.max_lives,
            cooldown: 0,
            alive: false,
            grounded: true,
            frames_since_grounded: 0,
            jump: JumpState::Double,
            ready: false,
        }
    }

    pub fn new(team: Team, controls: Controls, config: &PlayerConfig) -> (player: Self)
        ensures
            player.wf(),
            player == Self::joined(team, controls, config),
    {
        Player {
            team,
            controls,
            control_state: ControlState::default(),
            pos: Point2::new(0, 0),
            vel: Vector2::new(0, 0),
            acc: Vector2::new(0, 0),
            health: config.max_health,
            lives: config.max_lives,
            cooldown: 0,
            alive: false,
            frames_since_grounded: 0,
            grounded: true,
            ready: false,
            jump: JumpState::Double,
        }
    }

    pub fn health(&self) -> (h: u8)
        ensures
            h == self.health,
    {
        self.health
    }

    /// Deflection of the left-right axis as the controls give it: a pair of
    /// buttons gives full deflection toward the one that is down and none
    /// when both or neither are; an analog axis keeps what it last reported.
    pub open spec fn axis_after_controls(&self) -> i16 {
        match self.controls.lr {
            Axis::Buttons(_, _) => ((if self.control_state.r_pressed {
                FULL_AXIS as int
            } else {
                0
            }) - (if self.control_state.l_pressed {
                FULL_AXIS as int
            } else {
                0
            })) as i16,
            Axis::Analog(_, _) => self.control_state.lr,
        }
    }

    /// Brings the left-right axis up to date with the buttons.
    pub fn controls(&mut self)
        ensures
            *final(self) == (Player {
                control_state: ControlState {
                    lr: old(self).axis_after_controls(),
                    ..old(self).control_state
                },
                ..*old(self)
            }),
    {
        if let Axis::Buttons(_, _) = self.controls.lr {
            self.control_state.lr = 0;
            if self.control_state.l_pressed {
                self.control_state.lr -= FULL_AXIS;
            }
            if self.control_state.r_pressed {
                self.control_state.lr += FULL_AXIS;
            }
        }
    }

    /// The player after death: it loses one life if it was alive, and none
    /// if it was dead already.
    pub open spec fn after_kill(&self) -> Player {
        Player {
            lives: if self.alive && self.lives > 0 {
                (self.lives - 1) as u8
            } else {
                self.lives
            },
            alive: false,
            ..*self
        }
    }

    /// The player after one point of damage: health drops by one, not below
    /// zero, and a player without health dies.
    pub open spec fn after_damage(&self) -> Player {
        let hurt = Player {
            health: if self.health > 0 {
                (self.health - 1) as u8
            } else {
                0
            },
            ..*self
        };
        if hurt.health == 0 {
            hurt.after_kill()
        } else {
            hurt
        }
    }

    /// Takes a player without health out of play.
    pub fn kill(&mut self)
        requires
            old(self).health == 0,
        ensures
            *final(self) == old(self).after_kill(),
    {
        if self.alive {
            self.lives = self.lives.saturating_sub(1);
        }
        self.alive = false;
    }

    /// Deals one point of damage.
    pub fn damage(&mut self)
        ensures
            *final(self) == old(self).after_damage(),
            final(self).wf() == old(self).wf(),
            final(self).health <= old(self).health,
            final(self).lives <= old(self).lives,
    {
        self.health = self.health.saturating_sub(1);
        if self.health == 0 {
            self.kill();
        }
    }

    /// The space that the player takes up.
    pub open spec fn spec_rect(&self, config: &PlayerConfig) -> Rect {
        Rect {
            x: (self.pos.x - HALF_TILE) as i64,
            y: self.pos.y,
            w: config.width,
            h: config.height,
        }
    }

    #[verifier::when_used_as_spec(spec_rect)]
    pub fn rect(&self, config: &PlayerConfig) -> (r: Rect)
        requires
            self.wf(),
            config.wf(),
        ensures
            r == self.spec_rect(config),
            r.wf(),
    {
        Rect { x: self.pos.x - HALF_TILE, y: self.pos.y, w: config.width, h: config.height }
    }

    /// The player put into play on the tile in column `col`, row `row` of
    /// `grid`: above the middle of the tile, at rest, alive, at full health.
    pub open spec fn placed(&self, grid: &Grid, col: int, row: int, config: &PlayerConfig) -> Player {
        Player {
            pos: Point2 {
                x: (grid.world_coords(col, row).x + HALF_TILE) as i64,
                y: (grid.world_coords(col, row).y + TILE_SIZE) as i64,
            },
            vel: Vector2 { x: 0, y: 0 },
            acc: Vector2 { x: 0, y: 0 },
            alive: true,
            health: config.max_health,
            ..*self
        }
    }

    /// Puts the player into play on the tile at `place`, given as
    /// `(column, row)`, and says whether there was a place to put it.
    pub fn respawn_at(
        &mut self,
        grid: &Grid,
        place: Option<(GridCoord, GridCoord)>,
        config: &PlayerConfig,
    ) -> (respawned: bool)
        requires
            grid.wf(),
            place matches Some(at) ==> at.0 < GRID_WIDTH && at.1 < GRID_HEIGHT,
        ensures
            respawned == place is Some,
            match place {
                Some(at) => *final(self) == old(self).placed(
                    grid,
                    at.0 as int,
                    at.1 as int,
                    config,
                ) && final(self).wf(),
                None => *final(self) == *old(self),
            },
    {
        match place {
            None => false,
            Some(grid_coords) => {
                // make the player spawn on top of the center of the block
                let corner = grid.to_world_coords(grid_coords);
                self.pos = Point2::new(corner.x + HALF_TILE, corner.y + TILE_SIZE);
                self.vel = Vector2::new(0, 0);
                self.acc = Vector2::new(0, 0);
                self.alive = true;
                self.health = config.max_health;
                true
            },
        }
    }

    /// Respawns the player on a tile of `grid` picked by chance among those
    /// that are solid with two tiles of air above. Says whether it did: it
    /// fails, and changes nothing, exactly when the grid has no such tile.
    #[must_use]
    pub fn respawn(&mut self, grid: &Grid, config: &PlayerConfig) -> (respawned: bool)
        requires
            grid.wf(),
        ensures
            respawned == has_spawn(grid.tiles()),
            !respawned ==> *final(self) == *old(self),
            respawned ==> final(self).wf() && exists|col: int, row: int|
                #![trigger lowest_spawn(grid.tiles(), col, row)]
                lowest_spawn(grid.tiles(), col, row) && *final(self) == old(self).placed(
                    grid,
                    col,
                    row,
                    config,
                ),
    {
        let grid_coords = find_spawn_location(grid.module);
        let respawned = self.respawn_at(grid, grid_coords, config);
        proof {
            if respawned {
                let at = grid_coords.unwrap();
                assert(lowest_spawn(grid.tiles(), at.0 as int, at.1 as int));
            }
        }
        respawned
    }

    /// The player after its controls were read: the jump button as the
    /// frame sees it, and the left-right axis.
    pub open spec fn after_input(&self) -> Player {
        Player {
            control_state: ControlState {
                last_jump_frame: self.control_state.this_jump_frame,
                this_jump_frame: self.control_state.jump,
                lr: self.axis_after_controls(),
                ..self.control_state
            },
            ..*self
        }
    }

    /// The jump button went down between the last two frames.
    pub open spec fn jump_edge(&self) -> bool {
        !self.control_state.last_jump_frame && self.control_state.this_jump_frame
    }

    /// A press of the jump button starts a jump: the player has a charge
    /// left.
    pub open spec fn jumps(&self) -> bool {
        self.jump_edge() && self.jump != JumpState::Spent
    }

    /// The player after the jump button was looked at. A fresh press uses up
    /// a charge; with it the player leaves the ground, accelerated by as much
    /// as gives it the jump's speed within one tick.
    pub open spec fn after_jump(&self, config: &PlayerConfig) -> Player {
        if self.jumps() {
            Player {
                acc: Vector2 {
                    x: self.acc.x,
                    y: if self.jump == JumpState::Double {
                        (config.jump_power * TICKS_PER_SECOND) as i64
                    } else {
                        (config.second_jump_power * TICKS_PER_SECOND) as i64
                    },
                },
                grounded: false,
                jump: if self.jump == JumpState::Double {
                    JumpState::Single
                } else {
                    JumpState::Spent
                },
                ..*self
            }
        } else {
            *self
        }
    }

    /// The sound of the jump, if the player jumps.
    pub open spec fn jump_sounds(&self) -> Seq<SoundEffect> {
        if self.jumps() {
            seq![
                if self.jump == JumpState::Double {
                    SoundEffect::Jump
                } else {
                    SoundEffect::SecondJump
                },
            ]
        } else {
            Seq::empty()
        }
    }

    /// The player stands on the ground after some frames off it: it lands.
    pub open spec fn lands(&self) -> bool {
        self.grounded && self.frames_since_grounded > GROUNDED_FRAMES
    }

    /// The player after its charges were set right: landing restores both; a
    /// player that has been in the air for some frames has one at most.
    pub open spec fn after_landing(&self) -> Player {
        Player {
            jump: if self.lands() {
                JumpState::Double
            } else if !self.grounded && self.frames_since_grounded > GROUNDED_FRAMES && self.jump
                == JumpState::Double {
                JumpState::Single
            } else {
                self.jump
            },
            ..*self
        }
    }

    /// The sound of the landing, if the player lands.
    pub open spec fn landing_sounds(&self) -> Seq<SoundEffect> {
        if self.lands() {
            seq![SoundEffect::Land]
        } else {
            Seq::empty()
        }
    }

    /// The player fires in this frame: the button is down and the weapon has
    /// cooled.
    pub open spec fn shoots(&self) -> bool {
        self.control_state.shoot && self.cooldown == 0
    }

    /// Where a bullet of this player starts.
    pub open spec fn muzzle(&self, config: &PlayerConfig) -> Point2 {
        Point2 {
            x: saturate(
                self.pos.x + config.width / 2 + self.control_state.facing * config.shoot_offset_x,
            ) as i64,
            y: saturate(self.pos.y + config.shoot_offset_y) as i64,
        }
    }

    /// The bullet that this player fires.
    pub open spec fn shot(&self, config: &PlayerConfig) -> Bullet {
        Bullet {
            pos: self.muzzle(config),
            vel: Vector2 { x: (self.control_state.facing * BULLET_SPEED) as i64, y: 0 },
            team: self.team,
            is_alive: true,
        }
    }

    /// The player after its weapon was looked at: a shot starts the
    /// cooldown.
    pub open spec fn after_shot(&self) -> Player {
        Player {
            cooldown: if self.shoots() {
                SHOOT_COOLDOWN
            } else {
                self.cooldown
            },
            ..*self
        }
    }

    /// The bullet fired, if the player fires.
    pub open spec fn shots(&self, config: &PlayerConfig) -> Seq<Bullet> {
        if self.shoots() {
            seq![self.shot(config)]
        } else {
            Seq::empty()
        }
    }

    /// The sound of the shot, if the player fires.
    pub open spec fn shot_sounds(&self) -> Seq<SoundEffect> {
        if self.shoots() {
            seq![SoundEffect::Shoot]
        } else {
            Seq::empty()
        }
    }

    /// The player after its left-right axis pushed it: full deflection
    /// accelerates by as much as gives it one world unit per second within
    /// one tick. A player below the floor of the world also takes damage.
    pub open spec fn after_push(&self) -> Player {
        let pushed = Player {
            acc: Vector2 {
                x: saturate(self.acc.x + self.control_state.lr * TICKS_PER_SECOND) as i64,
                y: self.acc.y,
            },
            ..*self
        };
        if self.pos.y < WORLD_FLOOR {
            pushed.after_damage()
        } else {
            pushed
        }
    }

    /// The player after a frame. A dead player does not change. A living one
    /// reads its controls, jumps, has its charges set right, fires, and is
    /// pushed, in this order.
    pub open spec fn after_update(&self, config: &PlayerConfig) -> Player {
        if !self.alive {
            *self
        } else {
            self.after_input().after_jump(config).after_landing().after_shot().after_push()
        }
    }

    /// The bullets that a frame adds: one if a living player fires.
    pub open spec fn update_shots(&self, config: &PlayerConfig) -> Seq<Bullet> {
        if self.alive {
            self.shots(config)
        } else {
            Seq::empty()
        }
    }

    /// The sounds that a frame of a living player makes, in order: the jump,
    /// the landing, the shot.
    pub open spec fn update_sounds(&self, config: &PlayerConfig) -> Seq<SoundEffect> {
        if self.alive {
            self.after_input().jump_sounds() + self.after_input().after_jump(
                config,
            ).landing_sounds() + self.shot_sounds()
        } else {
            Seq::empty()
        }
    }

    fn read_input(&mut self)
        ensures
            *final(self) == old(self).after_input(),
    {
        self.control_state.last_jump_frame = self.control_state.this_jump_frame;
        self.control_state.this_jump_frame = self.control_state.jump;
        self.controls();
    }

    fn jump(&mut self, sounds: &mut Vec<SoundEffect>, config: &PlayerConfig)
        requires
            config.wf(),
        ensures
            *final(self) == old(self).after_jump(config),
            final(sounds)@ == old(sounds)@ + old(self).jump_sounds(),
    {
        // Want to jump (rising jump edge)
        if !self.control_state.last_jump_frame && self.control_state.this_jump_frame {
            match self.jump {
                JumpState::Double => {
                    self.acc.y = config.jump_power * TICKS_PER_SECOND;
                    self.grounded = false;
                    sounds.push(SoundEffect::Jump);
                    self.jump = JumpState::Single;
                },
                JumpState::Single => {
                    self.acc.y = config.second_jump_power * TICKS_PER_SECOND;
                    self.grounded = false;
                    sounds.push(SoundEffect::SecondJump);
                    self.jump = JumpState::Spent;
                },
                JumpState::Spent => {},
            }
        }
        assert(sounds@ =~= old(sounds)@ + old(self).jump_sounds());
    }

    fn land(&mut self, sounds: &mut Vec<SoundEffect>)
        ensures
            *final(self) == old(self).after_landing(),
            final(sounds)@ == old(sounds)@ + old(self).landing_sounds(),
    {
        // Transition from air to grounded
        if self.grounded && self.frames_since_grounded > GROUNDED_FRAMES {
            self.jump = JumpState::Double;
            sounds.push(SoundEffect::Land);
        }
        // Transition from grounded to air

        if !self.grounded && self.frames_since_grounded > GROUNDED_FRAMES {
            if self.jump == JumpState::Double {
                self.jump = JumpState::Single;
            }
        }
        assert(sounds@ =~= old(sounds)@ + old(self).landing_sounds());
    }

    fn shoot(
        &mut self,
        bullets: &mut Vec<Bullet>,
        sounds: &mut Vec<SoundEffect>,
        config: &PlayerConfig,
    )
        requires
            old(self).wf(),
            config.wf(),
        ensures
            *final(self) == old(self).after_shot(),
            final(bullets)@ == old(bullets)@ + old(self).shots(config),
            final(sounds)@ == old(sounds)@ + old(self).shot_sounds(),
            old(self).shoots() ==> old(self).shot(config).wf(),
    {
        if self.control_state.shoot && self.cooldown == 0 {
            let facing: WorldCoord = self.control_state.facing as i64;
            assert(-128 * WORLD_WIDTH <= facing * config.shoot_offset_x <= 128 * WORLD_WIDTH)
                by (nonlinear_arith)
                requires
                    -128 <= facing <= 127,
                    -WORLD_WIDTH <= config.shoot_offset_x <= WORLD_WIDTH,
                    WORLD_WIDTH == 32_000,
            ;
            let muzzle = Point2::new(
                clamp(
                    -COORD_LIMIT,
                    COORD_LIMIT,
                    self.pos.x + config.width / 2 + facing * config.shoot_offset_x,
                ),
                saturating_sum(self.pos.y, config.shoot_offset_y),
            );
            bullets.push(Bullet::new(muzzle, Vector2::new(facing * BULLET_SPEED, 0), self.team));
            self.cooldown = SHOOT_COOLDOWN;
            sounds.push(SoundEffect::Shoot);
        }
        assert(bullets@ =~= old(bullets)@ + old(self).shots(config));
        assert(sounds@ =~= old(sounds)@ + old(self).shot_sounds());
    }

    fn push(&mut self)
        requires
            old(self).wf(),
        ensures
            *final(self) == old(self).after_push(),
            final(self).wf(),
    {
        self.acc.x = saturating_sum(
            self.acc.x,
            (self.control_state.lr as i64) * TICKS_PER_SECOND,
        );

        if self.pos.y < WORLD_FLOOR {
            self.damage();
        }
    }

    /// Runs one frame of the player: controls, jumping, shooting, and the
    /// fall out of the world. Bullets fired and sounds made are appended to
    /// `bullets` and `sounds`.
    pub fn update(
        &mut self,
        bullets: &mut Vec<Bullet>,
        sounds: &mut Vec<SoundEffect>,
        config: &PlayerConfig,
    )
        requires
            old(self).wf(),
            config.wf(),
        ensures
            final(self).wf(),
            *final(self) == old(self).after_update(config),
            final(bullets)@ == old(bullets)@ + old(self).update_shots(config),
            final(sounds)@ == old(sounds)@ + old(self).update_sounds(config),
            forall|i: int|
                old(bullets)@.len() <= i < final(bullets)@.len() ==> (#[trigger] final(bullets)@[i]).wf(),
    {
        if !self.alive {
            assert(bullets@ =~= old(bullets)@ + old(self).update_shots(config));
            assert(sounds@ =~= old(sounds)@ + old(self).update_sounds(config));
            return ;
        }
        self.read_input();
        self.jump(sounds, config);
        self.land(sounds);
        let ghost aiming = *self;
        assert(aiming.shoots() == old(self).shoots());
        assert(aiming.shots(config) == old(self).shots(config));
        self.shoot(bullets, sounds, config);
        assert(sounds@ =~= old(sounds)@ + old(self).update_sounds(config));
        self.push();
    }

    /// Velocity after one tick of acceleration and damping.
    pub open spec fn damped_velocity(&self) -> Vector2 {
        Vector2 {
            x: scaled(
                saturate(self.vel.x + per_tick(self.acc.x as int)),
                DAMPING_X as int,
                DAMPING_X_OF as int,
            ) as i64,
            y: scaled(
                saturate(self.vel.y + per_tick(self.acc.y as int)),
                DAMPING_Y as int,
                DAMPING_Y_OF as int,
            ) as i64,
        }
    }

    /// The space that the player asks for after its vertical move.
    pub open spec fn vertical_probe(&self, config: &PlayerConfig) -> Rect {
        Rect {
            x: self.pos.x,
            y: (self.pos.y + per_tick(self.damped_velocity().y as int)) as i64,
            w: config.width,
            h: config.height,
        }
    }

    /// Vertical correction and velocity after the vertical move was resolved
    /// against the grids.
    pub open spec fn vertical_outcome(&self, grids: Seq<Grid>, config: &PlayerConfig) -> (
        int,
        Vector2,
    ) {
        resolve_all_vert(
            self.vertical_probe(config),
            self.damped_velocity(),
            colliders_of(grids, self.vertical_probe(config)),
        )
    }

    /// The space that the player asks for after its horizontal move, made
    /// from where the vertical move left it.
    pub open spec fn horizontal_probe(&self, grids: Seq<Grid>, config: &PlayerConfig) -> Rect {
        Rect {
            x: (self.pos.x + per_tick(self.vertical_outcome(grids, config).1.x as int)) as i64,
            y: (self.vertical_probe(config).y + self.vertical_outcome(grids, config).0) as i64,
            w: config.width,
            h: config.height,
        }
    }

    /// Horizontal correction and velocity after the horizontal move was
    /// resolved against the grids.
    pub open spec fn horizontal_outcome(&self, grids: Seq<Grid>, config: &PlayerConfig) -> (
        int,
        Vector2,
    ) {
        resolve_all_horiz(
            self.horizontal_probe(grids, config),
            self.vertical_outcome(grids, config).1,
            colliders_of(grids, self.horizontal_probe(grids, config)),
        )
    }

    /// The player after a tick. A dead player does not change. A living one
    /// cools its weapon, picks up speed and is damped, moves and is
    /// corrected first vertically, then horizontally from there, is held
    /// within the world, and is left under gravity. It is grounded exactly
    /// when the vertical correction pushed it up.
    pub open spec fn after_fixed_update(&self, grids: Seq<Grid>, config: &PlayerConfig) -> Player {
        if !self.alive {
            *self
        } else {
            Player {
                cooldown: if self.cooldown > 0 {
                    (self.cooldown - 1) as u32
                } else {
                    0
                },
                vel: self.horizontal_outcome(grids, config).1,
                pos: Point2 {
                    x: clamp_spec(
                        0,
                        WORLD_WIDTH - config.width,
                        self.horizontal_probe(grids, config).x + self.horizontal_outcome(
                            grids,
                            config,
                        ).0,
                    ) as i64,
                    y: clamp_spec(
                        -COORD_LIMIT as int,
                        WORLD_HEIGHT - config.height,
                        self.horizontal_probe(grids, config).y as int,
                    ) as i64,
                },
                frames_since_grounded: if self.grounded {
                    0
                } else if self.frames_since_grounded < u8::MAX {
                    (self.frames_since_grounded + 1) as u8
                } else {
                    u8::MAX
                },
                grounded: self.vertical_outcome(grids, config).0 > 0,
                acc: Vector2 { x: 0, y: GRAVITY },
                ..*self
            }
        }
    }

    /// Runs one tick of the player against the grids.
    pub fn fixed_update(&mut self, grids: &[Grid], config: &PlayerConfig)
        requires
            old(self).wf(),
            config.wf(),
            grids_wf(grids@),
        ensures
            final(self).wf(),
            *final(self) == old(self).after_fixed_update(grids@, config),
    {
        if !self.alive {
            return ;
        }
        let ghost before = *self;
        self.cooldown = self.cooldown.saturating_sub(1);
        self.vel.x = scale(
            saturating_sum(self.vel.x, rate_per_tick(self.acc.x)),
            DAMPING_X,
            DAMPING_X_OF,
        );
        self.vel.y = scale(
            saturating_sum(self.vel.y, rate_per_tick(self.acc.y)),
            DAMPING_Y,
            DAMPING_Y_OF,
        );
        assert(self.vel == before.damped_velocity());

        // Collision resolution, this is done by moving the player along the y-axis,
        // and moving them back so that they do not collide with the wall,
        // and then repeating this process for the x-axis.
        let mut colliders: Vec<Rect> = Vec::with_capacity(8);
        let mut next_pos = self.pos;

        // Resolve Vertically
        next_pos.y += rate_per_tick(self.vel.y);

        let next_rect = rect_from_point(next_pos, config.width, config.height);
        assert(next_rect == before.vertical_probe(config));
        get_overlapping_tiles(grids, next_rect, &mut colliders);
        assert(colliders@ =~= colliders_of(grids@, next_rect));
        let (res_disp_y, res_vel_y) = resolve_colliders_vert(
            next_rect,
            self.vel,
            colliders.as_slice(),
        );
        next_pos.y += res_disp_y;
        self.vel = res_vel_y;

        self.frames_since_grounded =
        if self.grounded {
            0
        } else {
            self.frames_since_grounded.saturating_add(1)
        };
        // If the displacement was vertical that means we have been pushed up
        // out of the ground, which means we are probably grounded.
        self.grounded = res_disp_y > 0;

        // Resolve Horizontally
        next_pos.x += rate_per_tick(self.vel.x);

        let next_rect = rect_from_point(next_pos, config.width, config.height);
        assert(next_rect == before.horizontal_probe(grids@, config));
        colliders.clear();
        get_overlapping_tiles(grids, next_rect, &mut colliders);
        assert(colliders@ =~= colliders_of(grids@, next_rect));
        let (res_disp_x, res_vel_x) = resolve_colliders_horiz(
            next_rect,
            self.vel,
            colliders.as_slice(),
        );
        next_pos.x += res_disp_x;
        self.vel = res_vel_x;

        // Don't let the player escape!
        self.pos.y = clamp(-COORD_LIMIT, WORLD_HEIGHT - config.height, next_pos.y);
        self.pos.x = clamp(0, WORLD_WIDTH - config.width, next_pos.x);
        // Gravity
        self.acc = Vector2::new(0, GRAVITY);
    }

    /// The player acts on `btn`: one of its controls is bound to it.
    pub open spec fn listens_to(&self, btn: Button) -> bool {
        ||| btn == self.controls.jump
        ||| btn == self.controls.shoot
        ||| self.controls.lr matches Axis::Buttons(l, r) && (btn == l || btn == r)
    }

    /// The controls after the button for left or right went down or up. A
    /// press turns the player that way; a release turns it the other way if
    /// that button is still down.
    pub open spec fn after_direction(
        state: ControlState,
        left: bool,
        pressed: bool,
    ) -> ControlState {
        if left {
            ControlState {
                facing: if pressed {
                    -1i8
                } else if state.r_pressed {
                    1
                } else {
                    state.facing
                },
                l_pressed: pressed,
                ..state
            }
        } else {
            ControlState {
                facing: if pressed {
                    1
                } else if state.l_pressed {
                    -1i8
                } else {
                    state.facing
                },
                r_pressed: pressed,
                ..state
            }
        }
    }

    /// The controls after `btn` went down or up: every control bound to it
    /// follows, jump first, then shoot, then left, then right.
    pub open spec fn controls_after_button(&self, btn: Button, pressed: bool) -> ControlState {
        let jumped = if btn == self.controls.jump {
            ControlState { jump: pressed, ..self.control_state }
        } else {
            self.control_state
        };
        let shot = if btn == self.controls.shoot {
            ControlState { shoot: pressed, ..jumped }
        } else {
            jumped
        };
        match self.controls.lr {
            Axis::Buttons(l, r) => {
                let left = if btn == l {
                    Self::after_direction(shot, true, pressed)
                } else {
                    shot
                };
                if btn == r {
                    Self::after_direction(left, false, pressed)
                } else {
                    left
                }
            },
            Axis::Analog(_, _) => shot,
        }
    }

    /// The player after `btn` went down or up.
    pub open spec fn after_button(&self, btn: Button, pressed: bool) -> Player {
        Player { control_state: self.controls_after_button(btn, pressed), ..*self }
    }

    fn turn(state: ControlState, left: bool, pressed: bool) -> (turned: ControlState)
        ensures
            turned == Self::after_direction(state, left, pressed),
    {
        let mut turned = state;
        if left {
            if pressed {
                turned.facing = -1;
            } else if state.r_pressed {
                turned.facing = 1;
            }
            turned.l_pressed = pressed;
        } else {
            if pressed {
                turned.facing = 1;
            } else if state.l_pressed {
                turned.facing = -1;
            }
            turned.r_pressed = pressed;
        }
        turned
    }

    /// Tells the player that `btn` went down or up, and says whether one of
    /// its controls is bound to it.
    pub fn button(&mut self, btn: Button, pressed: bool) -> (found: bool)
        ensures
            found == old(self).listens_to(btn),
            *final(self) == old(self).after_button(btn, pressed),
    {
        let mut found = false;
        let mut state = self.control_state;
        if btn == self.controls.jump {
            state.jump = pressed;
            found = true;
        }
        if btn == self.controls.shoot {
            state.shoot = pressed;
            found = true;
        }
        if let Axis::Buttons(l, r) = self.controls.lr {
            if btn == l {
                state = Self::turn(state, true, pressed);
                found = true;
            }
            if btn == r {
                state = Self::turn(state, false, pressed);
                found = true;
            }
        }
        self.control_state = state;
        found
    }

    /// Deflection in thousandths of a raw axis value, of which `i16::MAX` is
    /// full deflection.
    pub open spec fn deflection(value: i16) -> i16 {
        div_toward_zero(value * FULL_AXIS, i16::MAX as int) as i16
    }

    /// The player after the analog axis `axis` reported `value`. A player
    /// bound to that axis takes the deflection, and faces the way of any
    /// deflection of more than a tenth.
    pub open spec fn after_axis(&self, axis: Axis, value: i16) -> Player {
        if axis == self.controls.lr {
            Player {
                control_state: ControlState {
                    facing: if value > AXIS_DEAD_ZONE {
                        1
                    } else if value < -AXIS_DEAD_ZONE {
                        -1i8
                    } else {
                        self.control_state.facing
                    },
                    lr: Self::deflection(value),
                    ..self.control_state
                },
                ..*self
            }
        } else {
            *self
        }
    }

    /// Tells the player that the analog axis `axis` reported `value`.
    pub fn axis(&mut self, axis: Axis, value: i16)
        ensures
            *final(self) == old(self).after_axis(axis, value),
            axis == old(self).controls.lr ==> -FULL_AXIS <= final(self).control_state.lr
                <= FULL_AXIS,
    {
        if axis == self.controls.lr {
            if value > AXIS_DEAD_ZONE {
                self.control_state.facing = 1;
            } else if value < -AXIS_DEAD_ZONE {
                self.control_state.facing = -1;
            }
            let wide: i32 = value as i32 * FULL_AXIS as i32;
            proof {
                lemma_scaled_bounds(value as int, FULL_AXIS as int, i16::MAX as int);
            }
            self.control_state.lr = (wide / i16::MAX as i32) as i16;
        }
    }

    /// A player with one health left that is alive dies of the next damage
    /// and loses exactly one life; damage dealt to it after that takes no
    /// further life.
    pub proof fn lemma_no_double_kill(&self)
        requires
            self.health == 1,
            self.alive,
            self.lives > 0,
        ensures
            !self.after_damage().alive,
            self.after_damage().health == 0,
            self.after_damage().lives == self.lives - 1,
            self.after_damage().after_damage() == self.after_damage(),
    {
    }

    /// Damage dealt to a dead player without health changes nothing.
    pub proof fn lemma_damage_dead(&self)
        requires
            self.health == 0,
            !self.alive,
        ensures
            self.after_damage() == *self,
    {
    }
}

} // verus!
