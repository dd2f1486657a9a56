//! The shockwave where a dash lands.

use vstd::prelude::*;
use crate::collision::Actor;
use crate::collision::ColliderId;
use crate::cooldown::Cooldown;
use crate::cooldown::CooldownMode;
use crate::vec2::Vec2;

verus! {

/// How long the mark that shows a refreshed dash stays, in microseconds.
pub const DASH_REFRESH_TIME: u64 = 350_000;

/// The shockwave of a landing: a hitbox that lasts as long as its
/// animation.
#[derive(Clone, Copy, Debug, PartialEq, Eq, Structural)]
pub struct DashLanding {
    pub collider: ColliderId,
    pub position: Vec2,
    pub animation: Cooldown,
}

impl DashLanding {
    /// A shockwave at `position` that lasts `length` microseconds.
    pub fn new(collider: ColliderId, position: Vec2, length: u64) -> (l: DashLanding)
        ensures
            l == (DashLanding {
                collider,
                position,
                animation: Cooldown {
                    elapsed: 0,
                    duration: length,
                    mode: CooldownMode::Once,
                    just_finished: false,
                },
            }),
    {
        DashLanding { collider, position, animation: Cooldown::new(length, CooldownMode::Once) }
    }

    /// The shockwave after `dt` microseconds.
    pub open spec fn ticked(self, dt: u64) -> DashLanding {
        DashLanding { animation: self.animation.ticked(dt), ..self }
    }

    /// Whether the shockwave is over.
    pub open spec fn expired(self) -> bool {
        self.animation.is_finished()
    }

    /// Advances the animation and tells whether the shockwave is over.
    pub fn tick(&mut self, dt: u64) -> (over: bool)
        ensures
            *final(self) == old(self).ticked(dt),
            over == final(self).expired(),
    {
        self.animation.tick(dt);
        self.animation.finished()
    }
}

/// The mark above the player that shows that the dash is ready again.
#[derive(Clone, Copy, Debug, PartialEq, Eq, Structural)]
pub struct DashRefresh {
    pub timer: Cooldown,
}

impl DashRefresh {
    /// A mark that has just appeared.
    pub fn new() -> (r: DashRefresh)
        ensures
            r.timer == (Cooldown {
                elapsed: 0,
                duration: DASH_REFRESH_TIME,
                mode: CooldownMode::Once,
                just_finished: false,
            }),
    {
        DashRefresh { timer: Cooldown::new(DASH_REFRESH_TIME, CooldownMode::Once) }
    }

    /// Whether the mark goes after this tick: its time is up, or the
    /// player dashes again.
    pub open spec fn gone(self, dashing: bool) -> bool {
        self.timer.just_finished || dashing
    }

    /// Advances the mark and tells whether it goes.
    pub fn tick(&mut self, dt: u64, dashing: bool) -> (gone: bool)
        ensures
            final(self).timer == old(self).timer.ticked(dt),
            gone == final(self).gone(dashing),
    {
        self.timer.tick(dt);
        self.timer.just_finished() || dashing
    }

    /// Size of the mark in thousandths: it grows from 1000 to 1500 over
    /// its time.
    pub fn scale(&self) -> (s: u64)
        ensures
            s == 1000 + (if self.timer.permille_spec() > 1000 {
                1000
            } else {
                self.timer.permille_spec()
            }) / 2,
    {
        let p = self.timer.permille();
        let p = if p > 1000 {
            1000
        } else {
            p
        };
        1000 + p / 2
    }

    /// Opacity of the mark in thousandths: it fades from 1000 to 0 over
    /// its time.
    pub fn alpha(&self) -> (a: u64)
        ensures
            a == 1000 - (if self.timer.permille_spec() > 1000 {
                1000
            } else {
                self.timer.permille_spec()
            }),
    {
        let p = self.timer.permille();
        let p = if p > 1000 {
            1000
        } else {
            p
        };
        1000 - p
    }
}

impl Actor for DashLanding {
    open spec fn collider_id(&self) -> ColliderId {
        self.collider
    }

    open spec fn is_inert(&self) -> bool {
        self.expired()
    }

    fn owned_collider(&self) -> (c: ColliderId) {
        self.collider
    }

    fn inert(&self) -> (b: bool) {
        self.animation.finished()
    }
}

} // verus!
