//! The grappling hook: a hitbox that runs out from the player and comes
//! back.

use vstd::prelude::*;
use crate::collision::Actor;
use crate::collision::ColliderId;
use crate::cooldown::Cooldown;
use crate::cooldown::CooldownMode;
use crate::vec2::Vec2;
use crate::vec2::scaled;
use crate::vec2::step;
use crate::vec2::step_length;
use crate::player::PLAYER_HITBOX_OFFSET_Y;

verus! {

/// Speed of the hook's hitbox, in steps per second.
pub const COLLIDER_SPEED: u32 = 1_000_000;

/// The hook while it is out.
#[derive(Clone, Copy, Debug, PartialEq, Eq, Structural)]
pub struct PlayerHook {
    pub collider: ColliderId,
    /// One world unit long, from the player toward the cursor.
    pub direction: Vec2,
    /// How far the hitbox has run from the player.
    pub reach: u32,
    /// Set once the hook has run out all the way; the hitbox is gone then.
    pub retracting: bool,
    /// The time the hook takes to run out.
    pub extension: Cooldown,
}

impl PlayerHook {
    /// A hook thrown from `origin` toward `cursor` that takes
    /// `extension_time` microseconds to run out.
    pub fn new(collider: ColliderId, origin: Vec2, cursor: Vec2, extension_time: u64) -> (h:
        PlayerHook)
        ensures
            h == (PlayerHook {
                collider,
                direction: Self::aim(origin, cursor),
                reach: 0,
                retracting: false,
                extension: Cooldown {
                    elapsed: 0,
                    duration: extension_time,
                    mode: CooldownMode::Once,
                    just_finished: false,
                },
            }),
    {
        PlayerHook {
            collider,
            direction: cursor.minus(origin).heading(),
            reach: 0,
            retracting: false,
            extension: Cooldown::new(extension_time, CooldownMode::Once),
        }
    }

    /// The direction from `origin` to `cursor`, one world unit long.
    pub open spec fn aim(origin: Vec2, cursor: Vec2) -> Vec2 {
        cursor.minus_spec(origin).heading_spec()
    }

    /// Whether the hook's hitbox is in play.
    pub open spec fn live(self) -> bool {
        !self.retracting
    }

    /// The hook after `dt` microseconds.
    pub open spec fn advanced(self, dt: u64) -> PlayerHook {
        if self.retracting {
            self
        } else {
            let reach = self.reach + step_length(COLLIDER_SPEED as nat, dt as nat);
            PlayerHook {
                reach: if reach > u32::MAX {
                    u32::MAX
                } else {
                    reach as u32
                },
                extension: self.extension.ticked(dt),
                retracting: self.extension.ticked(dt).is_finished(),
                ..self
            }
        }
    }

    /// Runs the hitbox out at [`COLLIDER_SPEED`]; once the hook is out all
    /// the way it turns back and its hitbox goes.
    pub fn advance(&mut self, dt: u64)
        ensures
            *final(self) == old(self).advanced(dt),
    {
        if self.retracting {
            return ;
        }
        self.reach = self.reach.saturating_add(step(COLLIDER_SPEED, dt));
        self.extension.tick(dt);
        self.retracting = self.extension.finished();
    }

    /// Where the hitbox is when the player stands at `player_pos`.
    pub fn collider_position(&self, player_pos: Vec2) -> (pos: Vec2)
        ensures
            pos == player_pos.plus_spec(Vec2 { x: 0, y: PLAYER_HITBOX_OFFSET_Y }).plus_spec(
                scaled(self.direction.x as int, self.direction.y as int, self.reach as nat),
            ),
    {
        player_pos.plus(Vec2::new(0, PLAYER_HITBOX_OFFSET_Y)).plus(
            self.direction.with_length(self.reach),
        )
    }
}

impl Actor for PlayerHook {
    open spec fn collider_id(&self) -> ColliderId {
        self.collider
    }

    open spec fn is_inert(&self) -> bool {
        self.retracting
    }

    fn owned_collider(&self) -> (c: ColliderId) {
        self.collider
    }

    fn inert(&self) -> (b: bool) {
        self.retracting
    }
}

} // verus!
