//! The player and the rules that move it between its five states.

use vstd::prelude::*;
use crate::collision::ColliderId;
use crate::cooldown::Cooldown;
use crate::cooldown::CooldownMode;
use crate::cooldown::total;
use crate::cooldown::lemma_once_run;
use crate::cooldown::lemma_once_stays_finished;
use crate::vec2::Vec2;
use crate::vec2::scaled;

verus! {

/// Walking speed, in steps per second.
pub const MOVE_SPEED: u32 = 400_000;

/// Speed while the hook pulls the player toward its target.
pub const SLIDE_SPEED: u32 = 1_200_000;

/// How much faster than walking a dash is.
pub const DASH_MULTIPLIER: u32 = 2;

/// How much faster again a dash out of a slide is.
pub const SLIDE_DASH_MULTIPLIER: u32 = 2;

/// How long the hook stays out, in microseconds.
pub const HOOK_TIME: u64 = 550_000;

/// How close to the hook's target a slide ends.
pub const HOOK_SLIDE_DISTANCE: u32 = 90_000;

/// Time between two dashes, in microseconds.
pub const DASH_COOLDOWN: u64 = 2_500_000;

/// Vertical offset of the player's hurtbox from its position.
pub const PLAYER_HITBOX_OFFSET_Y: i32 = -10_000;

/// Vertical offset of the landing shockwave from the player.
pub const DASH_LANDING_OFFSET_Y: i32 = -50_000;

/// Spacing of the trail left by a dash out of a slide.
pub const TRAIL_SPACING: u32 = 150_000;

/// Size of the trail's effects, in thousandths.
pub const TRAIL_SCALE: u32 = 3000;

/// What the player is doing.
#[derive(Clone, Copy, Debug, PartialEq, Eq, Structural)]
pub enum PlayerState {
    Idling,
    Moving,
    Dashing,
    Hooking,
    Sliding,
}

impl Default for PlayerState {
    fn default() -> (s: PlayerState)
        ensures
            s == PlayerState::Idling,
    {
        PlayerState::Idling
    }
}

impl PlayerState {
    /// The transitions a player can make.
    pub open spec fn edge(self, next: PlayerState) -> bool {
        match (self, next) {
            (PlayerState::Idling, PlayerState::Moving) => true,
            (PlayerState::Moving, PlayerState::Idling) => true,
            (PlayerState::Idling, PlayerState::Dashing) => true,
            (PlayerState::Moving, PlayerState::Dashing) => true,
            (PlayerState::Sliding, PlayerState::Dashing) => true,
            (PlayerState::Dashing, PlayerState::Idling) => true,
            (PlayerState::Idling, PlayerState::Hooking) => true,
            (PlayerState::Moving, PlayerState::Hooking) => true,
            (PlayerState::Hooking, PlayerState::Idling) => true,
            (PlayerState::Hooking, PlayerState::Sliding) => true,
            (PlayerState::Sliding, PlayerState::Idling) => true,
            _ => false,
        }
    }

    /// Staying, or one transition.
    pub open spec fn step(self, next: PlayerState) -> bool {
        self == next || self.edge(next)
    }

    /// Whether the player walks or stands.
    pub open spec fn on_foot(self) -> bool {
        self == PlayerState::Idling || self == PlayerState::Moving
    }

    /// The place of the state's animation among the player's clips.
    pub fn animation_index(&self) -> (i: usize)
        ensures
            i == match *self {
                PlayerState::Idling => 0usize,
                PlayerState::Moving => 1usize,
                PlayerState::Dashing => 2usize,
                PlayerState::Hooking => 3usize,
                PlayerState::Sliding => 4usize,
            },
    {
        match *self {
            PlayerState::Idling => 0,
            PlayerState::Moving => 1,
            PlayerState::Dashing => 2,
            PlayerState::Hooking => 3,
            PlayerState::Sliding => 4,
        }
    }
}

/// A change of the player's state, announced once.
#[derive(Clone, Copy, Debug, PartialEq, Eq, Structural)]
pub struct PlayerChangedState {
    pub old_state: PlayerState,
    pub new_state: PlayerState,
}

/// A request for one effect of the trail behind a boosted dash.
#[derive(Clone, Copy, Debug, PartialEq, Eq, Structural)]
pub struct SpawnSuperSonic {
    pub pos: Vec2,
    pub dir: Vec2,
    /// Size in thousandths.
    pub scale_factor: u32,
}

/// The player.
#[derive(Clone, Copy, Debug, PartialEq, Eq, Structural)]
pub struct Player {
    pub state: PlayerState,
    /// Where the physics collaborator last saw the player.
    pub position: Vec2,
    /// Steps per second, handed to the physics collaborator.
    pub velocity: Vec2,
    pub current_direction: Vec2,
    /// Direction the sprite is turned to; zero when it is upright.
    pub facing: Vec2,
    pub hook_target_pos: Vec2,
    /// The hurtbox.
    pub collider_entity: ColliderId,
    /// The hitbox that is live only during a dash.
    pub dash_collider: ColliderId,
    pub hurtbox_enabled: bool,
    pub dash_hitbox_enabled: bool,
    pub flip_x: bool,
    pub disabled: bool,
}

impl Player {
    /// A player standing at `position`.
    pub fn new(collider_entity: ColliderId, dash_collider: ColliderId, position: Vec2) -> (p:
        Player)
        ensures
            p == (Player {
                state: PlayerState::Idling,
                position,
                velocity: Vec2::zero(),
                current_direction: Vec2::zero(),
                facing: Vec2::zero(),
                hook_target_pos: Vec2::zero(),
                collider_entity,
                dash_collider,
                hurtbox_enabled: true,
                dash_hitbox_enabled: false,
                flip_x: false,
                disabled: false,
            }),
    {
        Player {
            state: PlayerState::Idling,
            position,
            velocity: Vec2::origin(),
            current_direction: Vec2::origin(),
            facing: Vec2::origin(),
            hook_target_pos: Vec2::origin(),
            collider_entity,
            dash_collider,
            hurtbox_enabled: true,
            dash_hitbox_enabled: false,
            flip_x: false,
            disabled: false,
        }
    }

    /// Whether a dash input starts a dash: the cooldown has run out and the
    /// player walks, stands or slides.
    pub open spec fn dash_starts(self, timer: Cooldown, dash: bool) -> bool {
        dash && timer.is_finished() && (self.state.on_foot() || self.state == PlayerState::Sliding)
    }

    /// Ticks the dash cooldown and starts a dash where the input asks for
    /// one and the cooldown allows it; starting resets the cooldown.
    pub fn trigger_dash(&mut self, dash_timer: &mut Cooldown, dt: u64, dash: bool) -> (started:
        bool)
        ensures
            started == old(self).dash_starts(old(dash_timer).ticked(dt), dash),
            *final(dash_timer) == if started {
                old(dash_timer).ticked(dt).restarted()
            } else {
                old(dash_timer).ticked(dt)
            },
            *final(self) == if started {
                Player { state: PlayerState::Dashing, ..*old(self) }
            } else {
                *old(self)
            },
            old(self).state.step(final(self).state),
    {
        dash_timer.tick(dt);
        if !dash_timer.finished() {
            return false;
        }
        match self.state {
            PlayerState::Idling | PlayerState::Moving | PlayerState::Sliding => {},
            _ => {
                return false;
            },
        }
        if dash {
            self.state = PlayerState::Dashing;
            dash_timer.reset();
            return true;
        }
        false
    }

    /// Throws the hook where the input asks for it and the player walks or
    /// stands.
    pub fn trigger_hook(&mut self, hook: bool)
        ensures
            *final(self) == if hook && old(self).state.on_foot() {
                Player { state: PlayerState::Hooking, ..*old(self) }
            } else {
                *old(self)
            },
            old(self).state.step(final(self).state),
    {
        if !hook {
            return ;
        }
        match self.state {
            PlayerState::Idling | PlayerState::Moving => {
                self.state = PlayerState::Hooking;
            },
            _ => {},
        }
    }

    /// The player after the movement input `direction`.
    pub open spec fn moved(self, direction: Vec2) -> Player {
        if self.state == PlayerState::Hooking {
            Player { velocity: Vec2::zero(), ..self }
        } else if !self.state.on_foot() {
            self
        } else if direction == Vec2::zero() {
            Player { state: PlayerState::Idling, velocity: Vec2::zero(), ..self }
        } else {
            Player {
                state: PlayerState::Moving,
                current_direction: direction,
                velocity: scaled(direction.x as int, direction.y as int, MOVE_SPEED as nat),
                ..self
            }
        }
    }

    /// Walks along `direction` at [`MOVE_SPEED`], stands where it is zero,
    /// and holds still while the hook is out.
    pub fn player_movement(&mut self, direction: Vec2)
        ensures
            *final(self) == old(self).moved(direction),
            old(self).state.step(final(self).state),
    {
        match self.state {
            PlayerState::Hooking => {
                self.velocity = Vec2::origin();
            },
            PlayerState::Idling | PlayerState::Moving => {
                if direction.is_zero() {
                    self.state = PlayerState::Idling;
                    self.velocity = Vec2::origin();
                } else {
                    self.state = PlayerState::Moving;
                    self.current_direction = direction;
                    self.velocity = direction.with_length(MOVE_SPEED);
                }
            },
            _ => {},
        }
    }

    /// Where the player's hurtbox is.
    pub open spec fn hitbox_position(self) -> Vec2 {
        self.position.plus_spec(Vec2 { x: 0, y: PLAYER_HITBOX_OFFSET_Y })
    }

    /// Whether the slide has brought the hurtbox close enough to the hook's
    /// target.
    pub open spec fn slide_arrived(self) -> bool {
        self.hitbox_position().distance_squared_spec(self.hook_target_pos) <= HOOK_SLIDE_DISTANCE
            * HOOK_SLIDE_DISTANCE
    }

    /// The player after one step of a slide.
    pub open spec fn slid(self) -> Player {
        if self.state != PlayerState::Sliding {
            self
        } else if self.slide_arrived() {
            Player { state: PlayerState::Idling, ..self }
        } else {
            Player {
                velocity: self.position.toward_spec(self.hook_target_pos, SLIDE_SPEED as nat),
                ..self
            }
        }
    }

    /// Pulls a sliding player toward the hook's target at [`SLIDE_SPEED`]
    /// and ends the slide within [`HOOK_SLIDE_DISTANCE`] of it.
    pub fn slide_player(&mut self)
        ensures
            *final(self) == old(self).slid(),
            old(self).state.step(final(self).state),
    {
        if self.state != PlayerState::Sliding {
            return ;
        }
        let hitbox = self.position.plus(Vec2::new(0, PLAYER_HITBOX_OFFSET_Y));
        if hitbox.within(self.hook_target_pos, HOOK_SLIDE_DISTANCE) {
            self.state = PlayerState::Idling;
            return ;
        }
        self.velocity = self.position.toward(self.hook_target_pos, SLIDE_SPEED);
    }

    /// Ends a dash once its animation has finished.
    pub fn leave_dash(&mut self, animation_finished: bool)
        ensures
            *final(self) == if old(self).state == PlayerState::Dashing && animation_finished {
                Player { state: PlayerState::Idling, ..*old(self) }
            } else {
                *old(self)
            },
            old(self).state.step(final(self).state),
    {
        if self.state == PlayerState::Dashing && animation_finished {
            self.state = PlayerState::Idling;
        }
    }

    /// Takes the hook back once it has been out for [`HOOK_TIME`].
    pub fn stop_hooking(&mut self, animation_elapsed: u64)
        ensures
            *final(self) == if old(self).state == PlayerState::Hooking && animation_elapsed
                >= HOOK_TIME {
                Player { state: PlayerState::Idling, ..*old(self) }
            } else {
                *old(self)
            },
            old(self).state.step(final(self).state),
    {
        if self.state == PlayerState::Hooking && animation_elapsed >= HOOK_TIME {
            self.state = PlayerState::Idling;
        }
    }

    /// The hook has caught an enemy at `target`: a player whose hook is out
    /// starts to slide toward it.
    pub fn hook_caught(&mut self, target: Vec2) -> (caught: bool)
        ensures
            caught == (old(self).state == PlayerState::Hooking),
            *final(self) == if caught {
                Player { state: PlayerState::Sliding, hook_target_pos: target, ..*old(self) }
            } else {
                *old(self)
            },
            old(self).state.step(final(self).state),
    {
        if self.state == PlayerState::Hooking {
            self.state = PlayerState::Sliding;
            self.hook_target_pos = target;
            true
        } else {
            false
        }
    }

    /// The speed of a dash that follows the state `old_state`.
    pub open spec fn dash_speed(old_state: PlayerState) -> nat {
        if old_state == PlayerState::Sliding {
            (DASH_MULTIPLIER * SLIDE_DASH_MULTIPLIER * MOVE_SPEED) as nat
        } else {
            (DASH_MULTIPLIER * MOVE_SPEED) as nat
        }
    }

    /// Whether a dash that follows `old_state` keeps the direction the
    /// player already moves in.
    pub open spec fn dash_keeps_course(self, old_state: PlayerState) -> bool {
        old_state == PlayerState::Sliding && self.velocity != Vec2::zero()
    }

    /// The velocity of a dash that follows `old_state`: along the current
    /// velocity out of a slide, toward the cursor otherwise and where the
    /// player stands still.
    pub open spec fn dash_velocity(self, old_state: PlayerState, cursor: Vec2) -> Vec2 {
        if self.dash_keeps_course(old_state) {
            scaled(self.velocity.x as int, self.velocity.y as int, Self::dash_speed(old_state))
        } else {
            self.position.toward_spec(cursor, Self::dash_speed(old_state))
        }
    }

    /// The trail behind a dash that follows `old_state`: three effects out
    /// of a slide, spaced [`TRAIL_SPACING`] apart along the slide, and
    /// none otherwise.
    pub open spec fn dash_trail(self, old_state: PlayerState) -> Seq<SpawnSuperSonic> {
        if old_state == PlayerState::Sliding {
            let dir = scaled(self.velocity.x as int, self.velocity.y as int, 1000);
            let one = scaled(self.velocity.x as int, self.velocity.y as int, TRAIL_SPACING as nat);
            let two = scaled(
                self.velocity.x as int,
                self.velocity.y as int,
                2 * TRAIL_SPACING as nat,
            );
            seq![
                SpawnSuperSonic { pos: self.position, dir, scale_factor: TRAIL_SCALE },
                SpawnSuperSonic { pos: self.position.plus_spec(one), dir, scale_factor: TRAIL_SCALE },
                SpawnSuperSonic { pos: self.position.plus_spec(two), dir, scale_factor: TRAIL_SCALE },
            ]
        } else {
            Seq::empty()
        }
    }

    /// The player after the launch of a dash that follows `old_state`.
    pub open spec fn launched(self, old_state: PlayerState, cursor: Vec2) -> Player {
        let velocity = self.dash_velocity(old_state, cursor);
        Player { velocity, facing: velocity, ..self }
    }

    /// Launches the dash that a change into `Dashing` announces, and
    /// returns the trail it leaves. Other changes do nothing.
    pub fn move_player(&mut self, change: PlayerChangedState, cursor: Vec2) -> (trail: Vec<
        SpawnSuperSonic,
    >)
        ensures
            change.new_state != PlayerState::Dashing ==> *final(self) == *old(self) && trail@
                == Seq::<SpawnSuperSonic>::empty(),
            change.new_state == PlayerState::Dashing ==> *final(self) == old(self).launched(
                change.old_state,
                cursor,
            ) && trail@ == old(self).dash_trail(change.old_state),
            final(self).state == old(self).state,
    {
        let mut trail: Vec<SpawnSuperSonic> = Vec::new();
        if change.new_state != PlayerState::Dashing {
            return trail;
        }
        let from_slide = change.old_state == PlayerState::Sliding;
        let speed: u32 = if from_slide {
            DASH_MULTIPLIER * SLIDE_DASH_MULTIPLIER * MOVE_SPEED
        } else {
            DASH_MULTIPLIER * MOVE_SPEED
        };
        if from_slide {
            let dir = self.velocity.with_length(1000);
            let one = self.velocity.with_length(TRAIL_SPACING);
            let two = self.velocity.with_length(2 * TRAIL_SPACING);
            trail.push(SpawnSuperSonic { pos: self.position, dir, scale_factor: TRAIL_SCALE });
            trail.push(
                SpawnSuperSonic { pos: self.position.plus(one), dir, scale_factor: TRAIL_SCALE },
            );
            trail.push(
                SpawnSuperSonic { pos: self.position.plus(two), dir, scale_factor: TRAIL_SCALE },
            );
        }
        let velocity = if from_slide && !self.velocity.is_zero() {
            self.velocity.with_length(speed)
        } else {
            self.position.toward(cursor, speed)
        };
        self.velocity = velocity;
        self.facing = velocity;
        proof {
            assert(trail@ =~= old(self).dash_trail(change.old_state));
        }
        trail
    }

    /// The player after the change `change` has switched its colliders and
    /// reset its rotation.
    pub open spec fn colliders_toggled(self, change: PlayerChangedState) -> Player {
        if change.new_state == PlayerState::Dashing {
            Player { hurtbox_enabled: false, dash_hitbox_enabled: true, ..self }
        } else if change.old_state == PlayerState::Dashing {
            Player {
                hurtbox_enabled: true,
                dash_hitbox_enabled: false,
                facing: Vec2::zero(),
                ..self
            }
        } else {
            self
        }
    }

    /// Entering a dash switches the hurtbox off and the dash hitbox on;
    /// leaving it switches them back and sets the sprite upright.
    pub fn toggle_player_collider(&mut self, change: PlayerChangedState)
        ensures
            *final(self) == old(self).colliders_toggled(change),
    {
        if change.new_state == PlayerState::Dashing {
            self.hurtbox_enabled = false;
            self.dash_hitbox_enabled = true;
        } else if change.old_state == PlayerState::Dashing {
            self.hurtbox_enabled = true;
            self.dash_hitbox_enabled = false;
            self.facing = Vec2::origin();
        }
    }

    /// Whether the sprite is mirrored after this tick.
    pub open spec fn flip_after(self) -> bool {
        if self.state == PlayerState::Hooking || self.state == PlayerState::Sliding {
            self.flip_x
        } else if self.state == PlayerState::Dashing {
            false
        } else if self.current_direction.x == 0 {
            self.flip_x
        } else {
            self.current_direction.x < 0
        }
    }

    /// Mirrors the sprite of a walking player that heads left; a dash is
    /// never mirrored, and hook and slide keep what they found.
    pub fn adjust_sprite_flip(&mut self)
        ensures
            *final(self) == (Player { flip_x: old(self).flip_after(), ..*old(self) }),
    {
        match self.state {
            PlayerState::Hooking | PlayerState::Sliding => {},
            PlayerState::Dashing => {
                self.flip_x = false;
            },
            _ => {
                if self.current_direction.x != 0 {
                    self.flip_x = self.current_direction.x < 0;
                }
            },
        }
    }

    /// Where the shockwave of a landing appears.
    pub fn dash_landing_position(&self) -> (pos: Vec2)
        ensures
            pos == self.position.plus_spec(Vec2 { x: 0, y: DASH_LANDING_OFFSET_Y }),
    {
        self.position.plus(Vec2::new(0, DASH_LANDING_OFFSET_Y))
    }
}

/// Compares the player's state with the one last announced, and announces
/// a change once.
pub fn player_changed_state(player: &Player, announced: &mut PlayerState) -> (change: Option<
    PlayerChangedState,
>)
    ensures
        *final(announced) == player.state,
        change == if player.state != *old(announced) {
            Some(PlayerChangedState { old_state: *old(announced), new_state: player.state })
        } else {
            None::<PlayerChangedState>
        },
{
    if player.state != *announced {
        let change = PlayerChangedState { old_state: *announced, new_state: player.state };
        *announced = player.state;
        Some(change)
    } else {
        None
    }
}

/// The rules never make the player faster than they say: walking is no
/// faster than [`MOVE_SPEED`], sliding no faster than [`SLIDE_SPEED`],
/// and a dash no faster than its speed.
pub proof fn lemma_speed_limits(p: Player, direction: Vec2, old_state: PlayerState, cursor: Vec2)
    ensures
        p.state.on_foot() ==> {
            let v = p.moved(direction).velocity;
            v.x * v.x + v.y * v.y <= MOVE_SPEED * MOVE_SPEED
        },
        p.state == PlayerState::Sliding && !p.slide_arrived() ==> {
            let v = p.slid().velocity;
            v.x * v.x + v.y * v.y <= SLIDE_SPEED * SLIDE_SPEED
        },
        ({
            let v = p.launched(old_state, cursor).velocity;
            v.x * v.x + v.y * v.y <= Player::dash_speed(old_state) * Player::dash_speed(old_state)
        }),
{
    crate::vec2::lemma_scaled_bound(direction.x as int, direction.y as int, MOVE_SPEED as nat);
    crate::vec2::lemma_toward_bound(p.position, p.hook_target_pos, SLIDE_SPEED as nat);
    crate::vec2::lemma_scaled_bound(
        p.velocity.x as int,
        p.velocity.y as int,
        Player::dash_speed(old_state),
    );
    crate::vec2::lemma_toward_bound(p.position, cursor, Player::dash_speed(old_state));
    assert(0 <= MOVE_SPEED * MOVE_SPEED) by (nonlinear_arith);
}

/// The dash cooldown gates the dash: after a dash has restarted the
/// cooldown, a dash input starts the next dash exactly if the ticks
/// since then add up to the cooldown's duration, whatever their number.
pub proof fn lemma_dash_gate(p: Player, timer: Cooldown, deltas: Seq<u64>)
    requires
        timer.mode == CooldownMode::Once,
        p.state.on_foot() || p.state == PlayerState::Sliding,
    ensures
        p.dash_starts(timer.restarted().run(deltas), true) <==> total(deltas) >= timer.duration,
{
    let reset = timer.restarted();
    if reset.elapsed < reset.duration {
        lemma_once_run(reset, deltas);
    } else {
        lemma_once_stays_finished(reset, deltas);
    }
}

} // verus!
