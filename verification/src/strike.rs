//! Melee strikes: chains of up to three, gated by two cooldowns.

use vstd::prelude::*;
use crate::collision::Actor;
use crate::collision::ColliderId;
use crate::cooldown::Cooldown;
use crate::cooldown::CooldownMode;
use crate::cooldown::total;
use crate::cooldown::lemma_once_run;
use crate::vec2::Vec2;

verus! {

/// Time allowed between two strikes of one chain, in microseconds.
pub const CHAIN_COOLDOWN: u64 = 500_000;

/// Lockout after a full chain, in microseconds.
pub const STRIKE_COOLDOWN: u64 = 200_000;

/// Strikes in a full chain.
pub const STRIKE_CHAIN_COUNT: usize = 3;

/// How long the hitbox of a strike is live, in microseconds.
pub const STRIKE_LIFETIME: u64 = 100_000;

/// Size of the last strike of a chain, in thousandths.
pub const FINAL_STRIKE_SCALE: u32 = 2000;

/// Size of the other strikes, in thousandths.
pub const STRIKE_SCALE: u32 = 1500;

/// A request for one strike.
#[derive(Clone, Copy, Debug, PartialEq, Eq, Structural)]
pub struct SpawnStrike {
    /// From the player toward the cursor; zero where they coincide.
    pub rot: Vec2,
    /// The strike's place in its chain.
    pub strike_index: usize,
}

impl SpawnStrike {
    /// Every second strike of a chain is mirrored.
    pub fn flip_y(&self) -> (flip: bool)
        ensures
            flip == (self.strike_index % 2 == 1),
    {
        self.strike_index % 2 == 1
    }

    /// The last strike of a chain is larger than the others.
    pub fn scale(&self) -> (scale: u32)
        ensures
            scale == if self.strike_index == STRIKE_CHAIN_COUNT - 1 {
                FINAL_STRIKE_SCALE
            } else {
                STRIKE_SCALE
            },
    {
        if self.strike_index == STRIKE_CHAIN_COUNT - 1 {
            FINAL_STRIKE_SCALE
        } else {
            STRIKE_SCALE
        }
    }
}

/// The timer of a strike's hitbox.
#[derive(Clone, Copy, Debug, PartialEq, Eq, Structural)]
pub struct StrikeCollider {
    pub timer: Cooldown,
}

impl Default for StrikeCollider {
    fn default() -> (c: StrikeCollider)
        ensures
            c.timer == (Cooldown {
                elapsed: 0,
                duration: STRIKE_LIFETIME,
                mode: CooldownMode::Once,
                just_finished: false,
            }),
    {
        StrikeCollider { timer: Cooldown::new(STRIKE_LIFETIME, CooldownMode::Once) }
    }
}

/// A strike in flight: a hitbox that moves with the player.
#[derive(Clone, Copy, Debug, PartialEq, Eq, Structural)]
pub struct Strike {
    pub collider: ColliderId,
    /// The direction the strike faces; zero faces along the x axis.
    pub rot: Vec2,
    pub strike_index: usize,
    pub hitbox: StrikeCollider,
}

impl Strike {
    /// The strike that `request` asks for.
    pub fn new(collider: ColliderId, request: SpawnStrike) -> (s: Strike)
        ensures
            s == (Strike {
                collider,
                rot: request.rot,
                strike_index: request.strike_index,
                hitbox: StrikeCollider {
                    timer: Cooldown {
                        elapsed: 0,
                        duration: STRIKE_LIFETIME,
                        mode: CooldownMode::Once,
                        just_finished: false,
                    },
                },
            }),
    {
        Strike {
            collider,
            rot: request.rot,
            strike_index: request.strike_index,
            hitbox: StrikeCollider::default(),
        }
    }

    /// The strike after `dt` microseconds.
    pub open spec fn ticked(self, dt: u64) -> Strike {
        Strike { hitbox: StrikeCollider { timer: self.hitbox.timer.ticked(dt) }, ..self }
    }

    /// Whether the hitbox has run out.
    pub open spec fn expired(self) -> bool {
        self.hitbox.timer.is_finished()
    }

    /// Advances the hitbox's timer and tells whether the strike is over.
    pub fn tick(&mut self, dt: u64) -> (over: bool)
        ensures
            *final(self) == old(self).ticked(dt),
            over == final(self).expired(),
    {
        self.hitbox.timer.tick(dt);
        self.hitbox.timer.finished()
    }
}

/// The state of the strike chain.
#[derive(Clone, Copy, Debug, PartialEq, Eq, Structural)]
pub struct StrikeCooldown {
    /// Locks out new chains after a full one.
    pub absolute_cooldown: Cooldown,
    /// Runs between the strikes of a chain.
    pub chain_cooldown: Cooldown,
    /// The place of the next strike in its chain.
    pub strike_index: usize,
}

impl StrikeCooldown {
    /// The index lies within a chain, and both cooldowns are one-shot.
    pub open spec fn wf(self) -> bool {
        &&& self.strike_index < STRIKE_CHAIN_COUNT
        &&& self.absolute_cooldown.mode == CooldownMode::Once
        &&& self.chain_cooldown.mode == CooldownMode::Once
    }

    /// Whether an attack input is answered with a strike.
    pub open spec fn strikes(self, attack: bool) -> bool {
        attack && self.absolute_cooldown.is_finished()
    }

    /// Whether the next strike completes its chain.
    pub open spec fn wraps(self) -> bool {
        self.strike_index + 1 >= STRIKE_CHAIN_COUNT
    }

    /// The chain after a strike.
    pub open spec fn struck(self) -> StrikeCooldown {
        StrikeCooldown {
            absolute_cooldown: if self.wraps() {
                self.absolute_cooldown.rearmed(STRIKE_COOLDOWN)
            } else {
                self.absolute_cooldown
            },
            chain_cooldown: self.chain_cooldown.rearmed(CHAIN_COOLDOWN),
            strike_index: if self.wraps() {
                0
            } else {
                (self.strike_index + 1) as usize
            },
        }
    }

    /// The chain after an attack input.
    pub open spec fn triggered(self, attack: bool) -> StrikeCooldown {
        if self.strikes(attack) {
            self.struck()
        } else {
            self
        }
    }

    /// The chain after its window has been checked.
    pub open spec fn chain_reset(self) -> StrikeCooldown {
        if self.chain_cooldown.is_finished() {
            StrikeCooldown { strike_index: 0, ..self }
        } else {
            self
        }
    }

    /// The chain after `dt` microseconds.
    pub open spec fn ticked(self, dt: u64) -> StrikeCooldown {
        StrikeCooldown {
            absolute_cooldown: self.absolute_cooldown.ticked(dt),
            chain_cooldown: self.chain_cooldown.ticked(dt),
            ..self
        }
    }

    /// The chain as it stands when the attack input of a frame is looked
    /// at: both cooldowns ticked, and the index reset if the window closed.
    pub open spec fn settled(self, dt: u64) -> StrikeCooldown {
        self.ticked(dt).chain_reset()
    }

    /// The chain after a frame of `dt` microseconds with the attack input
    /// `attack`.
    pub open spec fn after_frame(self, dt: u64, attack: bool) -> StrikeCooldown {
        self.settled(dt).triggered(attack)
    }

    /// The strike that a frame gives out, if any.
    pub open spec fn frame_strike(self, dt: u64, attack: bool, rot: Vec2) -> Option<SpawnStrike> {
        if self.settled(dt).strikes(attack) {
            Some(SpawnStrike { rot, strike_index: self.settled(dt).strike_index })
        } else {
            None
        }
    }

    /// The chain after frames without attack input.
    pub open spec fn idle(self, deltas: Seq<u64>) -> StrikeCooldown
        decreases deltas.len(),
    {
        if deltas.len() == 0 {
            self
        } else {
            self.idle(deltas.drop_last()).after_frame(deltas.last(), false)
        }
    }

    /// A chain at its start, free to strike.
    pub fn new() -> (s: StrikeCooldown)
        ensures
            s.wf(),
            s.strike_index == 0,
            s.absolute_cooldown.is_finished(),
            s.absolute_cooldown == (Cooldown {
                elapsed: 0,
                duration: 0,
                mode: CooldownMode::Once,
                just_finished: false,
            }),
            s.chain_cooldown == s.absolute_cooldown,
    {
        StrikeCooldown {
            absolute_cooldown: Cooldown::new(0, CooldownMode::Once),
            chain_cooldown: Cooldown::new(0, CooldownMode::Once),
            strike_index: 0,
        }
    }

    /// Answers an attack input: outside the lockout it gives out a strike
    /// with the current index, restarts the chain window and advances the
    /// index; the strike that completes a chain starts the lockout.
    pub fn trigger_strike(&mut self, attack: bool, rot: Vec2) -> (request: Option<SpawnStrike>)
        ensures
            *final(self) == old(self).triggered(attack),
            request == if old(self).strikes(attack) {
                Some(SpawnStrike { rot, strike_index: old(self).strike_index })
            } else {
                None::<SpawnStrike>
            },
    {
        if !self.absolute_cooldown.finished() {
            return None;
        }
        if !attack {
            return None;
        }
        let request = SpawnStrike { rot, strike_index: self.strike_index };
        self.chain_cooldown.rearm(CHAIN_COOLDOWN);
        if self.strike_index >= STRIKE_CHAIN_COUNT - 1 {
            self.strike_index = 0;
            self.absolute_cooldown.rearm(STRIKE_COOLDOWN);
        } else {
            self.strike_index = self.strike_index + 1;
        }
        Some(request)
    }

    /// Starts the chain over once its window has closed.
    pub fn reset_chain(&mut self)
        ensures
            *final(self) == old(self).chain_reset(),
    {
        if self.chain_cooldown.finished() {
            self.strike_index = 0;
        }
    }

    /// Advances both cooldowns.
    pub fn tick_strike_cooldown(&mut self, dt: u64)
        ensures
            *final(self) == old(self).ticked(dt),
    {
        self.chain_cooldown.tick(dt);
        self.absolute_cooldown.tick(dt);
    }

    /// One frame of the chain: tick, close the window if it ran out, then
    /// answer the attack input.
    pub fn frame(&mut self, dt: u64, attack: bool, rot: Vec2) -> (request: Option<SpawnStrike>)
        ensures
            *final(self) == old(self).after_frame(dt, attack),
            request == old(self).frame_strike(dt, attack, rot),
    {
        self.tick_strike_cooldown(dt);
        self.reset_chain();
        self.trigger_strike(attack, rot)
    }
}

impl Default for StrikeCooldown {
    fn default() -> (s: StrikeCooldown)
        ensures
            s.wf(),
            s.strike_index == 0,
            s.absolute_cooldown.is_finished(),
    {
        StrikeCooldown::new()
    }
}

/// A strike carries the index the chain stood at, the index then advances
/// 0, 1, 2, 0, and the lockout starts exactly with the strike that wraps
/// it.
pub proof fn lemma_strike_advances(s: StrikeCooldown)
    requires
        s.wf(),
    ensures
        s.struck().wf(),
        s.struck().strike_index == (s.strike_index + 1) % 3,
        s.struck().strike_index == 0 <==> s.strike_index == 2,
        s.strike_index == 2 ==> !s.struck().absolute_cooldown.is_finished(),
        s.strike_index != 2 ==> s.struck().absolute_cooldown == s.absolute_cooldown,
        !s.struck().chain_cooldown.is_finished(),
        s.struck().chain_cooldown.elapsed == 0,
        s.struck().chain_cooldown.duration == CHAIN_COOLDOWN,
{
}

/// Frames keep the chain well-formed.
pub proof fn lemma_frame_wf(s: StrikeCooldown, dt: u64, attack: bool)
    requires
        s.wf(),
    ensures
        s.after_frame(dt, attack).wf(),
        s.settled(dt).wf(),
{
}

/// An attack that comes within the chain window, outside the lockout,
/// continues the chain: it carries the index the chain stood at.
pub proof fn lemma_attack_in_window(s: StrikeCooldown, dt: u64, rot: Vec2)
    requires
        s.wf(),
        s.chain_cooldown.elapsed + dt < s.chain_cooldown.duration,
        s.absolute_cooldown.ticked(dt).is_finished(),
    ensures
        s.frame_strike(dt, true, rot) == Some(SpawnStrike { rot, strike_index: s.strike_index }),
        s.after_frame(dt, true).strike_index == (s.strike_index + 1) % 3,
        s.strike_index == 2 <==> !s.after_frame(dt, true).absolute_cooldown.is_finished(),
{
}

/// An attack that comes after the chain window has closed starts a new
/// chain and leaves the lockout alone.
pub proof fn lemma_attack_after_window(s: StrikeCooldown, dt: u64, rot: Vec2)
    requires
        s.wf(),
        s.chain_cooldown.elapsed + dt >= s.chain_cooldown.duration,
        s.absolute_cooldown.ticked(dt).is_finished(),
    ensures
        s.frame_strike(dt, true, rot) == Some(SpawnStrike { rot, strike_index: 0 }),
        s.after_frame(dt, true).strike_index == 1,
        s.after_frame(dt, true).absolute_cooldown == s.absolute_cooldown.ticked(dt),
        s.after_frame(dt, true).absolute_cooldown.is_finished(),
{
}

/// During the lockout an attack input gives no strike and changes nothing
/// but the clocks.
pub proof fn lemma_attack_locked_out(s: StrikeCooldown, dt: u64, rot: Vec2)
    requires
        s.wf(),
        !s.absolute_cooldown.ticked(dt).is_finished(),
    ensures
        s.frame_strike(dt, true, rot) == None::<SpawnStrike>,
        s.after_frame(dt, true) == s.settled(dt),
{
}

/// Frames without attack keep the index while the window is open, and
/// leave the lockout's duration and mode alone.
pub proof fn lemma_idle_in_window(s: StrikeCooldown, deltas: Seq<u64>)
    requires
        s.wf(),
        s.chain_cooldown.elapsed + total(deltas) < s.chain_cooldown.duration,
    ensures
        s.idle(deltas).wf(),
        s.idle(deltas).strike_index == s.strike_index,
        s.idle(deltas).chain_cooldown == s.chain_cooldown.run(deltas),
        s.idle(deltas).absolute_cooldown == s.absolute_cooldown.run(deltas),
        s.idle(deltas).chain_cooldown.elapsed == s.chain_cooldown.elapsed + total(deltas),
        s.idle(deltas).chain_cooldown.duration == s.chain_cooldown.duration,
    decreases deltas.len(),
{
    if deltas.len() > 0 {
        lemma_idle_in_window(s, deltas.drop_last());
        lemma_once_run(s.chain_cooldown, deltas);
        lemma_once_run(s.chain_cooldown, deltas.drop_last());
    }
}

/// Three attacks, each within the chain window of the one before, give
/// the strikes 0, 1 and 2; the third starts the lockout, and an attack
/// that comes before the lockout is over gives nothing.
pub proof fn lemma_full_chain(s: StrikeCooldown, d0: u64, d1: u64, d2: u64, d3: u64, rot: Vec2)
    requires
        s.wf(),
        s.settled(d0).strike_index == 0,
        s.absolute_cooldown.ticked(d0).is_finished(),
        d1 < CHAIN_COOLDOWN,
        d2 < CHAIN_COOLDOWN,
        d3 < STRIKE_COOLDOWN,
    ensures
        ({
            let s1 = s.after_frame(d0, true);
            let s2 = s1.after_frame(d1, true);
            let s3 = s2.after_frame(d2, true);
            &&& s.frame_strike(d0, true, rot) == Some(SpawnStrike { rot, strike_index: 0 })
            &&& s1.frame_strike(d1, true, rot) == Some(SpawnStrike { rot, strike_index: 1 })
            &&& s2.frame_strike(d2, true, rot) == Some(SpawnStrike { rot, strike_index: 2 })
            &&& s1.absolute_cooldown.is_finished()
            &&& s2.absolute_cooldown.is_finished()
            &&& !s3.absolute_cooldown.is_finished()
            &&& s3.strike_index == 0
            &&& s3.frame_strike(d3, true, rot) == None::<SpawnStrike>
        }),
{
}

impl Actor for Strike {
    open spec fn collider_id(&self) -> ColliderId {
        self.collider
    }

    open spec fn is_inert(&self) -> bool {
        self.expired()
    }

    fn owned_collider(&self) -> (c: ColliderId) {
        self.collider
    }

    fn inert(&self) -> (b: bool) {
        self.hitbox.timer.finished()
    }
}

} // verus!
