//! Semantic categories attached to physics colliders as numeric user data.

use vstd::prelude::*;

verus! {

/// What a physics collider stands for in the game.
#[derive(Clone, Copy, Debug, PartialEq, Eq, Structural)]
pub enum ObjectType {
    Terrain,
    Unit,
    Bullet,
    Untagged,
}

/// Tag value of colliders that carry no category (the physics default).
pub const NO_TAG: u128 = 0;
/// Tag value of terrain colliders.
pub const TERRAIN_TAG: u128 = 1;
/// Tag value of unit colliders.
pub const UNIT_TAG: u128 = 2;
/// Tag value of bullet colliders.
pub const BULLET_TAG: u128 = 3;

/// The numeric user data written on a collider of category `c`.
pub open spec fn tag_of(c: ObjectType) -> u128 {
    match c {
        ObjectType::Terrain => TERRAIN_TAG,
        ObjectType::Unit => UNIT_TAG,
        ObjectType::Bullet => BULLET_TAG,
        ObjectType::Untagged => NO_TAG,
    }
}

/// The category that a collider's numeric user data stands for; any value
/// outside the reserved tags means no category.
pub open spec fn category_of_tag(tag: u128) -> ObjectType {
    if tag == TERRAIN_TAG {
        ObjectType::Terrain
    } else if tag == UNIT_TAG {
        ObjectType::Unit
    } else if tag == BULLET_TAG {
        ObjectType::Bullet
    } else {
        ObjectType::Untagged
    }
}

impl ObjectType {
    /// The user data to attach to a collider of this category.
    pub fn tag(self) -> (r: u128)
        ensures
            r == tag_of(self),
    {
        match self {
            ObjectType::Terrain => TERRAIN_TAG,
            ObjectType::Unit => UNIT_TAG,
            ObjectType::Bullet => BULLET_TAG,
            ObjectType::Untagged => NO_TAG,
        }
    }

    /// Reads a collider's user data back as a category.
    pub fn classify(tag: u128) -> (r: ObjectType)
        ensures
            r == category_of_tag(tag),
    {
        if tag == TERRAIN_TAG {
            ObjectType::Terrain
        } else if tag == UNIT_TAG {
            ObjectType::Unit
        } else if tag == BULLET_TAG {
            ObjectType::Bullet
        } else {
            ObjectType::Untagged
        }
    }
}

/// Tagging is injective: reading back the tag of a category gives that
/// category, so two categories never share a tag value.
pub proof fn lemma_classify_tag(c: ObjectType, d: ObjectType)
    ensures
        category_of_tag(tag_of(c)) == c,
        tag_of(c) == tag_of(d) ==> c == d,
{
}

/// Identifies one collider in the physics world.
#[derive(Clone, Copy, Debug, PartialEq, Eq, Structural)]
pub struct ColliderId {
    pub index: u64,
    pub generation: u64,
}

} // verus!
