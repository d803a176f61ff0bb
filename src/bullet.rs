//! Projectiles: how long they live and when they leave the world.

use vstd::prelude::*;

use crate::object::{ObjectType, tag_of};

verus! {

/// How long a bullet lives, in microseconds.
pub const BULLET_LIFETIME: u64 = 2_000_000;

/// A projectile's clock, in microseconds.
#[derive(Clone, Copy, Debug, PartialEq, Eq, Structural)]
pub struct Bullet {
    /// Time since the bullet was fired.
    pub age: u64,
    /// Age past which the bullet is removed.
    pub lifetime: u64,
}

impl Default for Bullet {
    fn default() -> (r: Bullet)
        ensures
            r == (Bullet { age: 0, lifetime: BULLET_LIFETIME }),
    {
        Bullet { age: 0, lifetime: BULLET_LIFETIME }
    }
}

impl Bullet {
    /// The bullet has outlived its lifetime.
    pub open spec fn expired(self) -> bool {
        self.age > self.lifetime
    }

    /// Ages the bullet by `delta` microseconds and says whether it must be
    /// removed this tick: when its age now strictly exceeds its lifetime, or
    /// when it is touching another body.
    pub fn advance(&mut self, delta: u64, in_contact: bool) -> (despawn: bool)
        requires
            old(self).age + delta <= u64::MAX,
        ensures
            *final(self) == (Bullet { age: (old(self).age + delta) as u64, ..*old(self) }),
            despawn == (final(self).expired() || in_contact),
    {
        self.age = self.age + delta;
        self.age > self.lifetime || in_contact
    }
}

/// A fresh bullet and the tag of its collider.
#[derive(Clone, Copy, Debug, PartialEq, Eq, Structural)]
pub struct BulletBundle {
    pub bullet: Bullet,
    pub collider_tag: u128,
}

impl BulletBundle {
    pub fn new() -> (r: BulletBundle)
        ensures
            r == (BulletBundle { bullet: Bullet { age: 0, lifetime: BULLET_LIFETIME }, collider_tag: tag_of(ObjectType::Bullet) }),
    {
        BulletBundle { bullet: Bullet::default(), collider_tag: ObjectType::Bullet.tag() }
    }
}

} // verus!
