//! The locally controlled unit: what its input asks for.

use vstd::prelude::*;

use crate::battle::{Position, TeamId};
use crate::unit::{UnitBundle, UnitState, unit_bundle};

verus! {

/// The controls held or pressed during one tick.
#[derive(Clone, Copy, Debug, PartialEq, Eq, Structural)]
pub struct PlayerKeys {
    pub forward: bool,
    pub back: bool,
    pub left: bool,
    pub right: bool,
    pub jump: bool,
    /// The fire button went down this tick.
    pub fire: bool,
}

/// Movement the player asks for, relative to where the unit looks: each of
/// `forward` and `strafe` is -1, 0 or 1.
#[derive(Clone, Copy, Debug, PartialEq, Eq, Structural)]
pub struct MoveIntent {
    pub forward: i8,
    /// Positive to the right.
    pub strafe: i8,
    pub jump: bool,
}

pub open spec fn axis(plus: bool, minus: bool) -> i8 {
    ((if plus { 1int } else { 0int }) - (if minus { 1int } else { 0int })) as i8
}

fn axis_of(plus: bool, minus: bool) -> (r: i8)
    ensures
        r == axis(plus, minus),
{
    let mut r: i8 = 0;
    if plus {
        r = r + 1;
    }
    if minus {
        r = r - 1;
    }
    r
}

/// Turns one tick of input into movement intent: opposite keys cancel, a
/// jump needs ground under the unit, and a press of the fire button asks the
/// unit to shoot.
pub fn player_controller(unit: &mut UnitState, keys: PlayerKeys) -> (r: MoveIntent)
    ensures
        r.forward == axis(keys.forward, keys.back),
        r.strafe == axis(keys.right, keys.left),
        r.jump == (keys.jump && old(unit).is_touching_ground),
        *final(unit) == (UnitState { shoot: old(unit).shoot || keys.fire, ..*old(unit) }),
{
    let intent = MoveIntent {
        forward: axis_of(keys.forward, keys.back),
        strafe: axis_of(keys.right, keys.left),
        jump: keys.jump && unit.is_touching_ground,
    };
    if keys.fire {
        unit.shoot = true;
    }
    intent
}

/// The player's unit: team one, at (40, 3, -50).
pub fn spawn_player() -> (r: UnitBundle)
    ensures
        r == unit_bundle(Position { x: 40000, y: 3000, z: -50000i32 }, TeamId::ONE),
{
    UnitBundle::new(Position::new(40000, 3000, -50000), TeamId::ONE)
}

} // verus!
