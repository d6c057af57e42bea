//! The sounds that the simulation asks its host to play.

use vstd::prelude::*;

verus! {

/// A sound cue. The simulation appends cues to a queue in the order in which
/// their causes occur; the host drains the queue and plays them.
#[derive(Clone, Copy, Debug, PartialEq, Eq, Structural)]
pub enum SoundEffect {
    Jump,
    SecondJump,
    Land,
    Shoot,
    BreakBlock,
    DamageBlock,
    DamageBlockMore,
    GridFallOffscreen,
    GridLand,
    GridLandBottom,
}

} // verus!
