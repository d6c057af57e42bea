//! Fixed-timestep simulation core of an arena shooter played on destructible,
//! falling tile platforms.
//!
//! All geometry is fixed-point: a coordinate is an `i64` counting thousandths
//! of a world unit, a velocity counts thousandths of a world unit per second,
//! and time advances in ticks of one sixtieth of a second.

pub mod bullet;
pub mod collide;
pub mod config;
pub mod grid;
pub mod level;
pub mod math;
pub mod player;
mod random;
pub mod sound;
pub mod spawn;
pub mod world;
