//! Arrows that a strike has sent back.

use vstd::prelude::*;
use crate::collision::Actor;
use crate::collision::ColliderId;
use crate::score::capped_sum;
use crate::vec2::Vec2;
use crate::vec2::scaled;
use crate::vec2::step;
use crate::vec2::step_length;

verus! {

/// Speed of a reflected arrow, in steps per second.
pub const PROJECTILE_SPEED: u32 = 800_000;

/// A request for a reflected arrow.
#[derive(Clone, Copy, Debug, PartialEq, Eq, Structural)]
pub struct SpawnReflectionProjectile {
    pub pos: Vec2,
    /// One world unit long.
    pub dir: Vec2,
}

/// A reflected arrow in flight.
#[derive(Clone, Copy, Debug, PartialEq, Eq, Structural)]
pub struct ReflectionProjectile {
    pub collider: ColliderId,
    pub position: Vec2,
    /// One world unit long.
    pub direction: Vec2,
    pub disabled: bool,
    /// Enemies this arrow has brought down so far.
    pub enemy_counter: u32,
}

impl ReflectionProjectile {
    /// The arrow that `request` asks for.
    pub fn new(collider: ColliderId, request: SpawnReflectionProjectile) -> (p:
        ReflectionProjectile)
        ensures
            p == (ReflectionProjectile {
                collider,
                position: request.pos,
                direction: request.dir,
                disabled: false,
                enemy_counter: 0,
            }),
    {
        ReflectionProjectile {
            collider,
            position: request.pos,
            direction: request.dir,
            disabled: false,
            enemy_counter: 0,
        }
    }

    /// The arrow after `dt` microseconds of flight.
    pub open spec fn moved(self, dt: u64) -> ReflectionProjectile {
        ReflectionProjectile {
            position: self.position.plus_spec(
                scaled(
                    self.direction.x as int,
                    self.direction.y as int,
                    step_length(PROJECTILE_SPEED as nat, dt as nat),
                ),
            ),
            ..self
        }
    }

    /// Flies on along its direction at [`PROJECTILE_SPEED`].
    pub fn move_projectile(&mut self, dt: u64)
        ensures
            *final(self) == old(self).moved(dt),
    {
        let len = step(PROJECTILE_SPEED, dt);
        self.position = self.position.plus(self.direction.with_length(len));
    }

    /// The arrow with one more enemy to its count; the count stops at
    /// `u32::MAX`.
    pub open spec fn counted(self) -> ReflectionProjectile {
        ReflectionProjectile { enemy_counter: capped_sum(self.enemy_counter, 1), ..self }
    }

    /// Counts one more enemy brought down by this arrow.
    pub fn increase_counter(&mut self)
        ensures
            *final(self) == old(self).counted(),
    {
        self.enemy_counter = self.enemy_counter.saturating_add(1);
    }

    pub fn enemy_counter(&self) -> (n: u32)
        ensures
            n == self.enemy_counter,
    {
        self.enemy_counter
    }

    /// Takes the arrow out of play.
    pub fn disable(&mut self)
        ensures
            *final(self) == (ReflectionProjectile { disabled: true, ..*old(self) }),
    {
        self.disabled = true;
    }
}

impl Actor for ReflectionProjectile {
    open spec fn collider_id(&self) -> ColliderId {
        self.collider
    }

    open spec fn is_inert(&self) -> bool {
        self.disabled
    }

    fn owned_collider(&self) -> (c: ColliderId) {
        self.collider
    }

    fn inert(&self) -> (b: bool) {
        self.disabled
    }
}

} // verus!
