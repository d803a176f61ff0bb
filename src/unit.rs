//! The discrete state that every unit carries from tick to tick.

use vstd::prelude::*;

use crate::battle::{Position, TeamId};
use crate::object::{ObjectType, tag_of};

verus! {

/// Hit points of a freshly spawned unit.
pub const INITIAL_HP: i32 = 3;

/// Per-unit state authored by the controllers and the contact resolver.
/// Orientation and velocity are continuous quantities kept beside it by the
/// host, next to the physics body.
#[derive(Clone, Copy, Debug, PartialEq, Eq, Structural)]
pub struct UnitState {
    /// Whether the unit currently stands on terrain.
    pub is_touching_ground: bool,
    /// One-shot request to fire, cleared by the tick that acts on it.
    pub shoot: bool,
    pub team: TeamId,
    pub hp: i32,
}

/// The state of a unit of team `team` at the moment it spawns.
pub open spec fn spawned_state(team: TeamId) -> UnitState {
    UnitState { is_touching_ground: false, shoot: false, team, hp: INITIAL_HP }
}

impl Default for UnitState {
    fn default() -> (r: UnitState)
        ensures
            r == spawned_state(TeamId::NONE),
    {
        UnitState::for_team(TeamId::NONE)
    }
}

impl UnitState {
    /// The state of a unit that has just joined team `team`.
    pub fn for_team(team: TeamId) -> (r: UnitState)
        ensures
            r == spawned_state(team),
    {
        UnitState { is_touching_ground: false, shoot: false, team, hp: INITIAL_HP }
    }

    /// Consumes the fire request: reports whether a bullet is owed this tick
    /// and leaves the request cleared either way.
    pub fn take_shot(&mut self) -> (fired: bool)
        ensures
            fired == old(self).shoot,
            !final(self).shoot,
            *final(self) == (UnitState { shoot: false, ..*old(self) }),
    {
        let fired = self.shoot;
        self.shoot = false;
        fired
    }
}

/// What is needed to bring one unit into the world: its state, where its body
/// starts, and the tag of its collider.
#[derive(Clone, Copy, Debug, PartialEq, Eq, Structural)]
pub struct UnitBundle {
    pub state: UnitState,
    pub position: Position,
    pub collider_tag: u128,
}

/// The bundle of a unit of team `team` spawned at `position`.
pub open spec fn unit_bundle(position: Position, team: TeamId) -> UnitBundle {
    UnitBundle { state: spawned_state(team), position, collider_tag: tag_of(ObjectType::Unit) }
}

impl UnitBundle {
    pub fn new(position: Position, team: TeamId) -> (r: UnitBundle)
        ensures
            r == unit_bundle(position, team),
    {
        UnitBundle { state: UnitState::for_team(team), position, collider_tag: ObjectType::Unit.tag() }
    }
}

} // verus!
