//! Enemies: the bat that flies at the player, and the archer that walks
//! up, shoots and rests.

use vstd::prelude::*;
use crate::collision::Actor;
use crate::collision::ColliderId;
use crate::cooldown::Cooldown;
use crate::cooldown::CooldownMode;
use crate::vec2::Vec2;
use crate::vec2::step;
use crate::vec2::step_length;
use crate::vec2::scaled;

verus! {

/// What an archer is worth before anything has hit it.
pub const SCORE: u32 = 200;

/// Walking speed of an archer, in steps per second.
pub const ARCHER_MOVE_SPEED: u32 = 80_000;

/// How near the player an archer starts to shoot.
pub const SHOOT_RANGE: u32 = 500_000;

/// How long an archer rests after a shot, in microseconds.
pub const MOVING_COOLDOWN: u64 = 2_000_000;

/// Speed of an arrow, in steps per second.
pub const PROJECTILE_SPEED: u32 = 650_000;

/// How far in front of the archer an arrow appears.
pub const PROJECTILE_OFFSET: u32 = 10_000;

/// Flying speed of a bat, in steps per second.
pub const BAT_MOVE_SPEED: u32 = 100_000;

/// Distance from the player at which enemies appear.
pub const SPAWN_OFFSET: u32 = 900_000;

/// Distance from the player beyond which an enemy is brought back.
pub const MAX_PLAYER_DISTANCE: u32 = 1_200_000;

/// What an archer is doing.
#[derive(Clone, Copy, Debug, PartialEq, Eq, Structural)]
pub enum ArcherState {
    Idling,
    Moving,
    Shooting,
    Stunned,
}

impl Default for ArcherState {
    fn default() -> (s: ArcherState)
        ensures
            s == ArcherState::Idling,
    {
        ArcherState::Idling
    }
}

impl ArcherState {
    /// The transitions an archer can make.
    pub open spec fn edge(self, next: ArcherState) -> bool {
        match (self, next) {
            (ArcherState::Idling, ArcherState::Moving) => true,
            (ArcherState::Moving, ArcherState::Shooting) => true,
            (ArcherState::Shooting, ArcherState::Idling) => true,
            (_, ArcherState::Stunned) => true,
            _ => false,
        }
    }

    /// Staying, or one transition.
    pub open spec fn step(self, next: ArcherState) -> bool {
        self == next || self.edge(next)
    }

    /// The place of the state's animation among the archer's clips.
    pub fn animation_index(&self) -> (i: usize)
        ensures
            i == match *self {
                ArcherState::Idling => 0usize,
                ArcherState::Moving => 1usize,
                ArcherState::Shooting => 2usize,
                ArcherState::Stunned => 3usize,
            },
    {
        match *self {
            ArcherState::Idling => 0,
            ArcherState::Moving => 1,
            ArcherState::Shooting => 2,
            ArcherState::Stunned => 3,
        }
    }
}

/// What makes an enemy an archer.
#[derive(Clone, Copy, Debug, PartialEq, Eq, Structural)]
pub struct EnemyArcher {
    pub state: ArcherState,
    /// The rest before the archer walks again.
    pub moving_cooldown: Cooldown,
    /// The length of the shot, started when the archer takes aim.
    pub shot: Cooldown,
}

impl EnemyArcher {
    /// An archer that may walk at once, with a shot that takes `shot_time`
    /// microseconds.
    pub fn new(shot_time: u64) -> (a: EnemyArcher)
        ensures
            a == (EnemyArcher {
                state: ArcherState::Idling,
                moving_cooldown: Cooldown {
                    elapsed: MOVING_COOLDOWN,
                    duration: MOVING_COOLDOWN,
                    mode: CooldownMode::Once,
                    just_finished: false,
                },
                shot: Cooldown {
                    elapsed: 0,
                    duration: shot_time,
                    mode: CooldownMode::Once,
                    just_finished: false,
                },
            }),
    {
        EnemyArcher {
            state: ArcherState::Idling,
            moving_cooldown: Cooldown::ready(MOVING_COOLDOWN),
            shot: Cooldown::new(shot_time, CooldownMode::Once),
        }
    }

    /// The archer after `dt` microseconds: its rest runs, and its shot while
    /// it is shooting.
    pub open spec fn ticked(self, dt: u64) -> EnemyArcher {
        EnemyArcher {
            moving_cooldown: self.moving_cooldown.ticked(dt),
            shot: if self.state == ArcherState::Shooting {
                self.shot.ticked(dt)
            } else {
                self.shot
            },
            ..self
        }
    }

    /// Advances the rest, and the shot of an archer that is shooting.
    pub fn tick_cooldowns(&mut self, dt: u64)
        ensures
            *final(self) == old(self).ticked(dt),
            final(self).state == old(self).state,
    {
        self.moving_cooldown.tick(dt);
        if self.state == ArcherState::Shooting {
            self.shot.tick(dt);
        }
    }

    /// The archer after it has looked whether to walk.
    pub open spec fn set_moving(self) -> EnemyArcher {
        if self.moving_cooldown.is_finished() && self.state == ArcherState::Idling {
            EnemyArcher { state: ArcherState::Moving, ..self }
        } else {
            self
        }
    }

    /// An idle archer starts to walk once it has rested.
    pub fn trigger_moving(&mut self)
        ensures
            *final(self) == old(self).set_moving(),
            old(self).state.step(final(self).state),
    {
        if !self.moving_cooldown.finished() {
            return ;
        }
        if self.state == ArcherState::Idling {
            self.state = ArcherState::Moving;
        }
    }

    /// The archer after it has looked whether to take aim.
    pub open spec fn set_shooting(self, in_range: bool) -> EnemyArcher {
        if self.state == ArcherState::Moving && self.moving_cooldown.is_finished() && in_range {
            EnemyArcher { state: ArcherState::Shooting, shot: self.shot.restarted(), ..self }
        } else {
            self
        }
    }

    /// A walking archer that has rested takes aim once the player is in
    /// range.
    pub fn trigger_shooting(&mut self, in_range: bool)
        ensures
            *final(self) == old(self).set_shooting(in_range),
            old(self).state.step(final(self).state),
    {
        if self.state != ArcherState::Moving {
            return ;
        }
        if !self.moving_cooldown.finished() {
            return ;
        }
        if in_range {
            self.state = ArcherState::Shooting;
            self.shot.reset();
        }
    }

    /// Whether the archer lets its arrow go now.
    pub open spec fn fires(self) -> bool {
        self.state == ArcherState::Shooting && self.shot.is_finished()
    }

    /// The archer after its shot, if it fires.
    pub open spec fn fired(self) -> EnemyArcher {
        if self.fires() {
            EnemyArcher {
                state: ArcherState::Idling,
                moving_cooldown: self.moving_cooldown.restarted(),
                ..self
            }
        } else {
            self
        }
    }

    /// Ends a shot whose animation is over: the archer goes idle and its
    /// rest starts anew.
    pub fn fire(&mut self) -> (fired: bool)
        ensures
            fired == old(self).fires(),
            *final(self) == old(self).fired(),
            old(self).state.step(final(self).state),
    {
        if self.state != ArcherState::Shooting || !self.shot.finished() {
            return false;
        }
        self.moving_cooldown.reset();
        self.state = ArcherState::Idling;
        true
    }

    /// The archer after it has looked whether it is stunned.
    pub open spec fn set_stunned(self, flagged: bool) -> EnemyArcher {
        if flagged {
            EnemyArcher { state: ArcherState::Stunned, ..self }
        } else {
            self
        }
    }

    /// An archer whose enemy is stunned or disabled is stunned.
    pub fn trigger_stunned(&mut self, flagged: bool)
        ensures
            *final(self) == old(self).set_stunned(flagged),
            old(self).state.step(final(self).state),
    {
        if flagged {
            self.state = ArcherState::Stunned;
        }
    }
}

/// What makes an enemy a bat.
#[derive(Clone, Copy, Debug, PartialEq, Eq, Structural)]
pub struct EnemyBat;

/// The two kinds of enemy.
#[derive(Clone, Copy, Debug, PartialEq, Eq, Structural)]
pub enum EnemyKind {
    Bat(EnemyBat),
    Archer(EnemyArcher),
}

/// An arrow in flight.
#[derive(Clone, Copy, Debug, PartialEq, Eq, Structural)]
pub struct EnemyProjectile {
    pub collider: ColliderId,
    pub position: Vec2,
    /// One world unit long.
    pub direction: Vec2,
    pub disabled: bool,
}

impl EnemyProjectile {
    /// The arrow after `dt` microseconds of flight.
    pub open spec fn moved(self, dt: u64) -> EnemyProjectile {
        EnemyProjectile {
            position: self.position.plus_spec(
                scaled(
                    self.direction.x as int,
                    self.direction.y as int,
                    step_length(PROJECTILE_SPEED as nat, dt as nat),
                ),
            ),
            ..self
        }
    }

    /// Flies on along its direction at [`PROJECTILE_SPEED`].
    pub fn move_projectile(&mut self, dt: u64)
        ensures
            *final(self) == old(self).moved(dt),
    {
        let len = step(PROJECTILE_SPEED, dt);
        self.position = self.position.plus(self.direction.with_length(len));
    }

    /// Takes the arrow out of play; an arrow that is out already stays as
    /// it is.
    pub fn disable(&mut self) -> (first: bool)
        ensures
            first == !old(self).disabled,
            *final(self) == (EnemyProjectile { disabled: true, ..*old(self) }),
    {
        let first = !self.disabled;
        self.disabled = true;
        first
    }
}

/// An enemy.
#[derive(Clone, Copy, Debug, PartialEq, Eq, Structural)]
pub struct Enemy {
    pub collider: ColliderId,
    pub position: Vec2,
    pub stunned: bool,
    /// Marks the enemy for removal. Once set it stays set.
    pub disabled: bool,
    /// What the player earns when the enemy is removed.
    pub score: u32,
    pub flip_x: bool,
    pub kind: EnemyKind,
}

impl Enemy {
    /// An archer at `position`.
    pub fn archer(collider: ColliderId, position: Vec2, shot_time: u64) -> (e: Enemy)
        ensures
            e == (Enemy {
                collider,
                position,
                stunned: false,
                disabled: false,
                score: SCORE,
                flip_x: false,
                kind: EnemyKind::Archer(
                    EnemyArcher {
                        state: ArcherState::Idling,
                        moving_cooldown: Cooldown {
                            elapsed: MOVING_COOLDOWN,
                            duration: MOVING_COOLDOWN,
                            mode: CooldownMode::Once,
                            just_finished: false,
                        },
                        shot: Cooldown {
                            elapsed: 0,
                            duration: shot_time,
                            mode: CooldownMode::Once,
                            just_finished: false,
                        },
                    },
                ),
            }),
    {
        Enemy {
            collider,
            position,
            stunned: false,
            disabled: false,
            score: SCORE,
            flip_x: false,
            kind: EnemyKind::Archer(EnemyArcher::new(shot_time)),
        }
    }

    /// A bat at `position`.
    pub fn bat(collider: ColliderId, position: Vec2) -> (e: Enemy)
        ensures
            e == (Enemy {
                collider,
                position,
                stunned: false,
                disabled: false,
                score: 0,
                flip_x: false,
                kind: EnemyKind::Bat(EnemyBat),
            }),
    {
        Enemy {
            collider,
            position,
            stunned: false,
            disabled: false,
            score: 0,
            flip_x: false,
            kind: EnemyKind::Bat(EnemyBat),
        }
    }

    /// Whether the enemy is out of the fight.
    pub open spec fn flagged(self) -> bool {
        self.disabled || self.stunned
    }

    /// The enemy after a hit worth `award`: disabled, with that score. A
    /// disabled enemy is not hit again.
    pub open spec fn defeated(self, award: u32) -> Enemy {
        if self.disabled {
            self
        } else {
            Enemy { disabled: true, score: award, ..self }
        }
    }

    /// Disables the enemy and sets what it is worth; does nothing to an
    /// enemy that is disabled already.
    pub fn defeat(&mut self, award: u32) -> (first: bool)
        ensures
            first == !old(self).disabled,
            *final(self) == old(self).defeated(award),
            final(self).disabled,
    {
        if self.disabled {
            false
        } else {
            self.disabled = true;
            self.score = award;
            true
        }
    }

    /// Whether a hook that touches the enemy catches it.
    pub open spec fn hookable(self) -> bool {
        !self.stunned
    }

    /// The direction of pursuit: where an enemy that moves at `speed`
    /// stands after `dt` microseconds of heading for `target`.
    pub open spec fn pursued(self, target: Vec2, speed: u32, dt: u64) -> Vec2 {
        self.position.advanced_spec(target, step_length(speed as nat, dt as nat))
    }

    /// Whether the enemy moves this tick.
    pub open spec fn moves(self) -> bool {
        match self.kind {
            EnemyKind::Bat(_) => !self.flagged(),
            EnemyKind::Archer(a) => a.state == ArcherState::Moving,
        }
    }

    /// The speed of the enemy's kind.
    pub open spec fn speed(self) -> u32 {
        match self.kind {
            EnemyKind::Bat(_) => BAT_MOVE_SPEED,
            EnemyKind::Archer(_) => ARCHER_MOVE_SPEED,
        }
    }

    /// The enemy after `dt` microseconds of pursuit, if it moves.
    pub open spec fn moved(self, player_pos: Vec2, dt: u64) -> Enemy {
        if self.moves() {
            Enemy { position: self.pursued(player_pos, self.speed(), dt), ..self }
        } else {
            self
        }
    }

    /// Pursues the player in a straight line: a bat unless it is stunned
    /// or disabled, an archer while it is in its moving state.
    pub fn move_enemy(&mut self, player_pos: Vec2, dt: u64)
        ensures
            *final(self) == old(self).moved(player_pos, dt),
    {
        let (moves, speed) = match self.kind {
            EnemyKind::Bat(_) => (!(self.disabled || self.stunned), BAT_MOVE_SPEED),
            EnemyKind::Archer(a) => (a.state == ArcherState::Moving, ARCHER_MOVE_SPEED),
        };
        if moves {
            self.position = self.position.advanced(player_pos, step(speed, dt));
        }
    }

    /// Whether the player is within an archer's range.
    pub open spec fn in_range(self, player_pos: Vec2) -> bool {
        self.position.distance_squared_spec(player_pos) <= SHOOT_RANGE * SHOOT_RANGE
    }

    /// The enemy after its clocks and its state machine have run for one
    /// tick, before it moves or shoots.
    pub open spec fn thought(self, player_pos: Vec2, dt: u64) -> Enemy {
        match self.kind {
            EnemyKind::Bat(_) => self,
            EnemyKind::Archer(a) => Enemy {
                kind: EnemyKind::Archer(
                    a.ticked(dt).set_stunned(self.flagged()).set_moving().set_shooting(
                        self.in_range(player_pos),
                    ),
                ),
                ..self
            },
        }
    }

    /// Runs an archer's clocks and decisions for one tick: a flagged
    /// archer is stunned, a rested idle one walks, a walking one in range
    /// takes aim. A bat decides nothing.
    pub fn think(&mut self, player_pos: Vec2, dt: u64)
        ensures
            *final(self) == old(self).thought(player_pos, dt),
    {
        let flagged = self.disabled || self.stunned;
        let in_range = self.position.within(player_pos, SHOOT_RANGE);
        match self.kind {
            EnemyKind::Bat(_) => {},
            EnemyKind::Archer(mut a) => {
                a.tick_cooldowns(dt);
                a.trigger_stunned(flagged);
                a.trigger_moving();
                a.trigger_shooting(in_range);
                self.kind = EnemyKind::Archer(a);
            },
        }
    }

    /// Whether the enemy lets an arrow go now.
    pub open spec fn shoots(self) -> bool {
        self.kind matches EnemyKind::Archer(a) && a.fires()
    }

    /// The enemy after its shot, if it shoots.
    pub open spec fn shot(self) -> Enemy {
        match self.kind {
            EnemyKind::Bat(_) => self,
            EnemyKind::Archer(a) => Enemy { kind: EnemyKind::Archer(a.fired()), ..self },
        }
    }

    /// The arrow of an archer that aims at `player_pos`: it starts
    /// [`PROJECTILE_OFFSET`] in front of the archer and heads for where
    /// the player is now.
    pub open spec fn arrow(self, player_pos: Vec2, collider: ColliderId) -> EnemyProjectile {
        let direction = player_pos.minus_spec(self.position).heading_spec();
        EnemyProjectile {
            collider,
            position: self.position.plus_spec(
                scaled(direction.x as int, direction.y as int, PROJECTILE_OFFSET as nat),
            ),
            direction,
            disabled: false,
        }
    }

    /// Lets the arrow of a finished shot go. The archer turns idle and its
    /// rest starts anew.
    pub fn spawn_projectile(&mut self, player_pos: Vec2, collider: ColliderId) -> (arrow: Option<
        EnemyProjectile,
    >)
        ensures
            *final(self) == old(self).shot(),
            arrow == if old(self).shoots() {
                Some(old(self).arrow(player_pos, collider))
            } else {
                None::<EnemyProjectile>
            },
    {
        match self.kind {
            EnemyKind::Bat(_) => None,
            EnemyKind::Archer(mut a) => {
                let fired = a.fire();
                self.kind = EnemyKind::Archer(a);
                if !fired {
                    return None;
                }
                let direction = player_pos.minus(self.position).heading();
                Some(
                    EnemyProjectile {
                        collider,
                        position: self.position.plus(direction.with_length(PROJECTILE_OFFSET)),
                        direction,
                        disabled: false,
                    },
                )
            },
        }
    }

    /// Whether the enemy has strayed too far from the player.
    pub open spec fn strayed(self, player_pos: Vec2) -> bool {
        self.position.distance_squared_spec(player_pos) >= MAX_PLAYER_DISTANCE
            * MAX_PLAYER_DISTANCE
    }

    /// The enemy after it has been brought back, if it has strayed.
    pub open spec fn redeployed(self, player_pos: Vec2) -> Enemy {
        if self.strayed(player_pos) {
            Enemy {
                position: player_pos.plus_spec(
                    self.position.toward_spec(player_pos, SPAWN_OFFSET as nat),
                ),
                ..self
            }
        } else {
            self
        }
    }

    /// Brings an enemy that is [`MAX_PLAYER_DISTANCE`] or more from the
    /// player back to [`SPAWN_OFFSET`] from it, along the line from the
    /// enemy to the player.
    pub fn redeploy(&mut self, player_pos: Vec2)
        ensures
            *final(self) == old(self).redeployed(player_pos),
    {
        proof {
            assert(MAX_PLAYER_DISTANCE * MAX_PLAYER_DISTANCE == 1_440_000_000_000)
                by (nonlinear_arith);
        }
        let limit: u64 = MAX_PLAYER_DISTANCE as u64 * MAX_PLAYER_DISTANCE as u64;
        if self.position.distance_squared(player_pos) >= limit {
            self.position = player_pos.plus(self.position.toward(player_pos, SPAWN_OFFSET));
        }
    }

    /// Turns the sprite toward the player.
    pub fn adjust_sprite_flip(&mut self, player_pos: Vec2)
        ensures
            *final(self) == (Enemy { flip_x: player_pos.x < old(self).position.x, ..*old(self) }),
    {
        self.flip_x = player_pos.x < self.position.x;
    }
}

/// Nothing an archer does leaves its state machine: clocks, stun,
/// walking, aiming and shooting each stay or take one defined transition.
pub proof fn lemma_archer_steps(a: EnemyArcher, dt: u64, flagged: bool, in_range: bool)
    ensures
        a.state == a.ticked(dt).state,
        a.state.step(a.set_stunned(flagged).state),
        a.state.step(a.set_moving().state),
        a.state.step(a.set_shooting(in_range).state),
        a.state.step(a.fired().state),
        flagged ==> a.set_stunned(flagged).set_moving().set_shooting(in_range).state
            == ArcherState::Stunned,
{
}

/// Bringing an enemy back leaves it no farther from the player than
/// [`SPAWN_OFFSET`], so that no enemy stays astray; an enemy that has
/// not strayed stays where it is. The player must stand at least
/// [`SPAWN_OFFSET`] from the edge of the plane.
pub proof fn lemma_redeploy_in_range(e: Enemy, player_pos: Vec2)
    requires
        i32::MIN + SPAWN_OFFSET <= player_pos.x <= i32::MAX - SPAWN_OFFSET,
        i32::MIN + SPAWN_OFFSET <= player_pos.y <= i32::MAX - SPAWN_OFFSET,
    ensures
        !e.redeployed(player_pos).strayed(player_pos),
        e.strayed(player_pos) ==> e.redeployed(player_pos).position.distance_squared_spec(
            player_pos,
        ) <= SPAWN_OFFSET * SPAWN_OFFSET,
        !e.strayed(player_pos) ==> e.redeployed(player_pos) == e,
{
    if e.strayed(player_pos) {
        crate::vec2::lemma_toward_bound(e.position, player_pos, SPAWN_OFFSET as nat);
        let v = e.position.toward_spec(player_pos, SPAWN_OFFSET as nat);
        crate::vec2::lemma_scaled_bound(
            player_pos.x - e.position.x,
            player_pos.y - e.position.y,
            SPAWN_OFFSET as nat,
        );
        let back = player_pos.plus_spec(v);
        assert(back.x == player_pos.x + v.x);
        assert(back.y == player_pos.y + v.y);
        assert((back.x - player_pos.x) * (back.x - player_pos.x) == v.x * v.x);
        assert((back.y - player_pos.y) * (back.y - player_pos.y) == v.y * v.y);
        let limit = (SPAWN_OFFSET as nat) * (SPAWN_OFFSET as nat);
        assert(limit == 810_000_000_000) by (nonlinear_arith)
            requires
                limit == 900_000 * 900_000,
        ;
        assert(SPAWN_OFFSET * SPAWN_OFFSET == limit);
        assert(MAX_PLAYER_DISTANCE * MAX_PLAYER_DISTANCE == 1_440_000_000_000)
            by (nonlinear_arith);
        assert(v.x * v.x + v.y * v.y <= limit);
        assert(v.x * v.x >= 0 && v.y * v.y >= 0) by (nonlinear_arith);
        assert(back.distance_squared_spec(player_pos) == v.x * v.x + v.y * v.y);
        assert(e.redeployed(player_pos).position == back);
    }
}

/// An idle archer that is neither stunned nor disabled stays idle, and
/// stays where it is, while its rest has not run out; in the tick in
/// which the rest runs out it starts to walk, or takes aim at once if
/// the player is in range, and from then on it pursues the player.
pub proof fn lemma_archer_rests(e: Enemy, a: EnemyArcher, player_pos: Vec2, dt: u64)
    requires
        e.kind == EnemyKind::Archer(a),
        a.state == ArcherState::Idling,
        !e.flagged(),
    ensures
        ({
            let next = e.thought(player_pos, dt);
            let rested = a.moving_cooldown.ticked(dt).is_finished();
            &&& next.kind matches EnemyKind::Archer(b)
            &&& (!rested ==> b.state == ArcherState::Idling && next.moved(player_pos, dt).position
                == e.position)
            &&& (rested && !e.in_range(player_pos) ==> b.state == ArcherState::Moving
                && next.moved(player_pos, dt).position == e.pursued(
                player_pos,
                ARCHER_MOVE_SPEED,
                dt,
            ))
            &&& (rested && e.in_range(player_pos) ==> b.state == ArcherState::Shooting)
        }),
{
}

impl Actor for Enemy {
    open spec fn collider_id(&self) -> ColliderId {
        self.collider
    }

    open spec fn is_inert(&self) -> bool {
        self.disabled
    }

    fn owned_collider(&self) -> (c: ColliderId) {
        self.collider
    }

    fn inert(&self) -> (b: bool) {
        self.disabled
    }
}

impl Actor for EnemyProjectile {
    open spec fn collider_id(&self) -> ColliderId {
        self.collider
    }

    open spec fn is_inert(&self) -> bool {
        self.disabled
    }

    fn owned_collider(&self) -> (c: ColliderId) {
        self.collider
    }

    fn inert(&self) -> (b: bool) {
        self.disabled
    }
}

} // verus!
