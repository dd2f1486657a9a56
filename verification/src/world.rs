//! The world of one session and the systems that run on it, one after
//! another, once per tick.

use vstd::prelude::*;
use crate::collision::ColliderId;
use crate::collision::CollisionEvent;
use crate::collision::in_play;
use crate::collision::sweep;
use crate::cooldown::Cooldown;
use crate::cooldown::CooldownMode;
use crate::dash::DashLanding;
use crate::enemy::Enemy;
use crate::enemy::EnemyProjectile;
use crate::enemy::SPAWN_OFFSET;
use crate::hook::PlayerHook;
use crate::input::MouseWorldCoords;
use crate::input::PlayerInput;
use crate::mapper::Catch;
use crate::mapper::Volley;
use crate::mapper::DASH_LANDING_SCORE;
use crate::mapper::DASH_SCORE;
use crate::mapper::STRIKE_SCORE;
use crate::mapper::catches;
use crate::mapper::defeat_on_contact;
use crate::mapper::deflections;
use crate::mapper::harmed;
use crate::mapper::hits;
use crate::mapper::hook_enemy_collision;
use crate::mapper::player_reflection_projectiles_collisions;
use crate::mapper::projectile_strike_collisions;
use crate::mapper::touched;
use crate::mapper::volleys;
use crate::player::DASH_COOLDOWN;
use crate::player::HOOK_TIME;
use crate::player::Player;
use crate::player::PlayerChangedState;
use crate::player::PlayerState;
use crate::player::SpawnSuperSonic;
use crate::player::player_changed_state;
use crate::reflection_projectile::ReflectionProjectile;
use crate::reflection_projectile::SpawnReflectionProjectile;
use crate::score::KillCounter;
use crate::score::PlayerScore;
use crate::strike::SpawnStrike;
use crate::strike::Strike;
use crate::strike::StrikeCooldown;
use crate::vec2::Vec2;
use crate::vec2::scaled;

verus! {

/// Time between two archers, in microseconds.
pub const ARCHER_SPAWN_INTERVAL: u64 = 1_300_000;

/// Time between two bats, in microseconds.
pub const BAT_SPAWN_INTERVAL: u64 = 300_000;

/// Where the player stands when a session begins.
pub const PLAYER_SPAWN_X: i32 = 100_000;

pub const PLAYER_SPAWN_Y: i32 = 100_000;

/// The lengths of the animations that end a state or an actor, in
/// microseconds.
#[derive(Clone, Copy, Debug, PartialEq, Eq, Structural)]
pub struct Clips {
    /// The dash.
    pub dash: u64,
    /// The hook running out.
    pub hook: u64,
    /// The archer's shot.
    pub shot: u64,
    /// The shockwave of a landing.
    pub dash_landing: u64,
}

/// The notice that an enemy has been removed.
#[derive(Clone, Copy, Debug, PartialEq, Eq, Structural)]
pub struct DespawnEnemy {
    pub enemy: Enemy,
    pub pos: Vec2,
}

/// What the collaborators hand to one tick, apart from the overlaps.
#[derive(Clone, Copy, Debug, PartialEq, Eq, Structural)]
pub struct Frame {
    /// Microseconds since the last tick.
    pub dt: u64,
    pub input: PlayerInput,
    pub cursor: MouseWorldCoords,
    /// Where the physics collaborator has the player now.
    pub player_position: Vec2,
    /// The direction from which an archer would come.
    pub archer_heading: Vec2,
    /// The direction from which a bat would come.
    pub bat_heading: Vec2,
}

/// What one tick tells the collaborators.
pub struct Report {
    /// The strike given out.
    pub strike: Option<SpawnStrike>,
    /// The trail of a boosted dash.
    pub trail: Vec<SpawnSuperSonic>,
    /// The reflections asked for.
    pub reflections: Vec<SpawnReflectionProjectile>,
    /// The enemies removed.
    pub despawned: Vec<DespawnEnemy>,
    /// The change of the player's state announced.
    pub change: Option<PlayerChangedState>,
    /// Whether the dash has become ready again in this tick.
    pub dash_ready: bool,
    /// Whether the player is defeated.
    pub game_over: bool,
}

impl DespawnEnemy {
    /// The text that rises where the enemy fell: a plus sign and what
    /// it was worth.
    pub fn score_text(&self) -> (text: String)
        ensures
            text@ == seq!['+'] + crate::text::decimal(self.enemy.score as nat),
    {
        let mut text = String::new();
        text.push('+');
        crate::text::push_padded(&mut text, self.enemy.score as u64, 0);
        proof {
            assert(text@ =~= seq!['+'] + crate::text::decimal(self.enemy.score as nat));
        }
        text
    }
}

/// Everything a session holds while it is played.
pub struct World {
    pub player: Option<Player>,
    /// How long the player has been in its state.
    pub player_clock: u64,
    /// The state of the player that was last announced.
    pub announced: PlayerState,
    /// The change announced at the end of the last tick, until the
    /// systems of this tick have answered it.
    pub change: Option<PlayerChangedState>,
    pub hook: Option<PlayerHook>,
    pub strikes: Vec<Strike>,
    pub dash_landings: Vec<DashLanding>,
    pub reflections: Vec<ReflectionProjectile>,
    pub enemies: Vec<Enemy>,
    pub projectiles: Vec<EnemyProjectile>,
    pub dash_timer: Cooldown,
    pub strike_cooldown: StrikeCooldown,
    pub archer_spawn: Cooldown,
    pub bat_spawn: Cooldown,
    pub score: PlayerScore,
    pub kills: KillCounter,
    pub clips: Clips,
    /// The name of the next collider to be given out.
    pub next_collider: u64,
}

/// The mathematical value of a [`World`].
pub struct WorldView {
    pub player: Option<Player>,
    pub player_clock: u64,
    pub announced: PlayerState,
    pub change: Option<PlayerChangedState>,
    pub hook: Option<PlayerHook>,
    pub strikes: Seq<Strike>,
    pub dash_landings: Seq<DashLanding>,
    pub reflections: Seq<ReflectionProjectile>,
    pub enemies: Seq<Enemy>,
    pub projectiles: Seq<EnemyProjectile>,
    pub dash_timer: Cooldown,
    pub strike_cooldown: StrikeCooldown,
    pub archer_spawn: Cooldown,
    pub bat_spawn: Cooldown,
    pub score: PlayerScore,
    pub kills: KillCounter,
    pub clips: Clips,
    pub next_collider: u64,
}

impl View for World {
    type V = WorldView;

    open spec fn view(&self) -> WorldView {
        WorldView {
            player: self.player,
            player_clock: self.player_clock,
            announced: self.announced,
            change: self.change,
            hook: self.hook,
            strikes: self.strikes@,
            dash_landings: self.dash_landings@,
            reflections: self.reflections@,
            enemies: self.enemies@,
            projectiles: self.projectiles@,
            dash_timer: self.dash_timer,
            strike_cooldown: self.strike_cooldown,
            archer_spawn: self.archer_spawn,
            bat_spawn: self.bat_spawn,
            score: self.score,
            kills: self.kills,
            clips: self.clips,
            next_collider: self.next_collider,
        }
    }
}

/// The name that follows `n`; the last name follows itself.
pub open spec fn next_name(n: u64) -> u64 {
    if n == u64::MAX {
        n
    } else {
        (n + 1) as u64
    }
}

impl WorldView {
    /// A world with nothing in it.
    pub open spec fn empty(clips: Clips) -> WorldView {
        WorldView {
            player: None,
            player_clock: 0,
            announced: PlayerState::Idling,
            change: None,
            hook: None,
            strikes: Seq::empty(),
            dash_landings: Seq::empty(),
            reflections: Seq::empty(),
            enemies: Seq::empty(),
            projectiles: Seq::empty(),
            dash_timer: Cooldown {
                elapsed: DASH_COOLDOWN,
                duration: DASH_COOLDOWN,
                mode: CooldownMode::Once,
                just_finished: false,
            },
            strike_cooldown: StrikeCooldown {
                absolute_cooldown: Cooldown {
                    elapsed: 0,
                    duration: 0,
                    mode: CooldownMode::Once,
                    just_finished: false,
                },
                chain_cooldown: Cooldown {
                    elapsed: 0,
                    duration: 0,
                    mode: CooldownMode::Once,
                    just_finished: false,
                },
                strike_index: 0,
            },
            archer_spawn: Cooldown {
                elapsed: 0,
                duration: ARCHER_SPAWN_INTERVAL,
                mode: CooldownMode::Repeating,
                just_finished: false,
            },
            bat_spawn: Cooldown {
                elapsed: 0,
                duration: BAT_SPAWN_INTERVAL,
                mode: CooldownMode::Repeating,
                just_finished: false,
            },
            score: PlayerScore { score: 0 },
            kills: KillCounter { kills: 0 },
            clips,
            next_collider: 0,
        }
    }

    /// The world with a new player at the starting place.
    pub open spec fn player_spawned(self) -> WorldView {
        WorldView {
            player: Some(
                Player {
                    state: PlayerState::Idling,
                    position: Vec2 { x: PLAYER_SPAWN_X, y: PLAYER_SPAWN_Y },
                    velocity: Vec2::zero(),
                    current_direction: Vec2::zero(),
                    facing: Vec2::zero(),
                    hook_target_pos: Vec2::zero(),
                    collider_entity: ColliderId(self.next_collider),
                    dash_collider: ColliderId(next_name(self.next_collider)),
                    hurtbox_enabled: true,
                    dash_hitbox_enabled: false,
                    flip_x: false,
                    disabled: false,
                },
            ),
            player_clock: 0,
            announced: PlayerState::Idling,
            change: None,
            hook: None,
            next_collider: next_name(next_name(self.next_collider)),
            ..self
        }
    }

    /// The world without its player, and without what hangs on it.
    pub open spec fn player_despawned(self) -> WorldView {
        WorldView { player: None, hook: None, strikes: Seq::empty(), change: None, ..self }
    }

    /// The world with the player where physics has put it.
    #[verifier::opaque]
    pub open spec fn synced(self, position: Vec2) -> WorldView {
        match self.player {
            Some(p) => WorldView { player: Some(Player { position, ..p }), ..self },
            None => self,
        }
    }

    /// Whether the dash input of this tick starts a dash.
    pub open spec fn dashes(self, dt: u64, dash: bool) -> bool {
        self.player matches Some(p) && p.dash_starts(self.dash_timer.ticked(dt), dash)
    }

    /// The world after the dash input has been answered.
    #[verifier::opaque]
    pub open spec fn dash_triggered(self, dt: u64, dash: bool) -> WorldView {
        match self.player {
            Some(p) => if self.dashes(dt, dash) {
                WorldView {
                    player: Some(Player { state: PlayerState::Dashing, ..p }),
                    dash_timer: self.dash_timer.ticked(dt).restarted(),
                    ..self
                }
            } else {
                WorldView { dash_timer: self.dash_timer.ticked(dt), ..self }
            },
            None => self,
        }
    }

    /// The world after the hook input has been answered.
    #[verifier::opaque]
    pub open spec fn hook_triggered(self, hook: bool) -> WorldView {
        match self.player {
            Some(p) => if hook && p.state.on_foot() {
                WorldView { player: Some(Player { state: PlayerState::Hooking, ..p }), ..self }
            } else {
                self
            },
            None => self,
        }
    }

    /// The strike that this tick gives out, if any.
    pub open spec fn strike_request(self, dt: u64, attack: bool, cursor: Vec2) -> Option<
        SpawnStrike,
    > {
        match self.player {
            Some(p) => self.strike_cooldown.frame_strike(
                dt,
                attack,
                cursor.minus_spec(p.position),
            ),
            None => None,
        }
    }

    /// The world after the attack input has been answered.
    #[verifier::opaque]
    pub open spec fn strike_triggered(self, dt: u64, attack: bool, cursor: Vec2) -> WorldView {
        match self.strike_request(dt, attack, cursor) {
            Some(request) => WorldView {
                strike_cooldown: self.strike_cooldown.after_frame(dt, true),
                strikes: self.strikes.push(
                    Strike {
                        collider: ColliderId(self.next_collider),
                        rot: request.rot,
                        strike_index: request.strike_index,
                        hitbox: crate::strike::StrikeCollider {
                            timer: Cooldown {
                                elapsed: 0,
                                duration: crate::strike::STRIKE_LIFETIME,
                                mode: CooldownMode::Once,
                                just_finished: false,
                            },
                        },
                    },
                ),
                next_collider: next_name(self.next_collider),
                ..self
            },
            None => WorldView { strike_cooldown: self.strike_cooldown.settled(dt), ..self },
        }
    }

    /// The world after the movement input has been answered.
    #[verifier::opaque]
    pub open spec fn player_moved(self, direction: Vec2) -> WorldView {
        match self.player {
            Some(p) => WorldView { player: Some(p.moved(direction).slid()), ..self },
            None => self,
        }
    }

    /// The hook that a change into `Hooking` throws.
    pub open spec fn thrown_hook(self, p: Player, cursor: Vec2) -> PlayerHook {
        PlayerHook {
            collider: ColliderId(self.next_collider),
            direction: PlayerHook::aim(p.position, cursor),
            reach: 0,
            retracting: false,
            extension: Cooldown {
                elapsed: 0,
                duration: self.clips.hook,
                mode: CooldownMode::Once,
                just_finished: false,
            },
        }
    }

    /// The shockwave that a change out of `Dashing` leaves.
    pub open spec fn landing(self, p: Player) -> DashLanding {
        DashLanding {
            collider: ColliderId(self.next_collider),
            position: p.position.plus_spec(Vec2 { x: 0, y: crate::player::DASH_LANDING_OFFSET_Y }),
            animation: Cooldown {
                elapsed: 0,
                duration: self.clips.dash_landing,
                mode: CooldownMode::Once,
                just_finished: false,
            },
        }
    }

    /// The world after the systems have answered the change `change` of
    /// the player `p`.
    pub open spec fn changed(self, p: Player, change: PlayerChangedState, cursor: Vec2)
        -> WorldView {
        let launched = if change.new_state == PlayerState::Dashing {
            p.launched(change.old_state, cursor)
        } else {
            p
        }.colliders_toggled(change);
        if change.old_state == PlayerState::Dashing {
            WorldView {
                player: Some(launched),
                change: None,
                dash_landings: self.dash_landings.push(self.landing(p)),
                hook: if change.new_state == PlayerState::Hooking {
                    Some(
                        WorldView { next_collider: next_name(self.next_collider), ..self }.thrown_hook(
                            p,
                            cursor,
                        ),
                    )
                } else {
                    self.hook
                },
                next_collider: if change.new_state == PlayerState::Hooking {
                    next_name(next_name(self.next_collider))
                } else {
                    next_name(self.next_collider)
                },
                ..self
            }
        } else if change.new_state == PlayerState::Hooking {
            WorldView {
                player: Some(
                    Player { flip_x: self.thrown_hook(p, cursor).direction.x < 0, ..launched },
                ),
                change: None,
                hook: Some(self.thrown_hook(p, cursor)),
                next_collider: next_name(self.next_collider),
                ..self
            }
        } else if change.old_state == PlayerState::Hooking {
            WorldView { player: Some(launched), change: None, hook: None, ..self }
        } else {
            WorldView { player: Some(launched), change: None, ..self }
        }
    }

    /// The world after the change announced last tick has been answered.
    #[verifier::opaque]
    pub open spec fn change_applied(self, cursor: Vec2) -> WorldView {
        match (self.player, self.change) {
            (Some(p), Some(change)) => self.changed(p, change, cursor),
            _ => WorldView { change: None, ..self },
        }
    }

    /// The trail that the answer to the change leaves.
    pub open spec fn change_trail(self) -> Seq<SpawnSuperSonic> {
        match (self.player, self.change) {
            (Some(p), Some(change)) => if change.new_state == PlayerState::Dashing {
                p.dash_trail(change.old_state)
            } else {
                Seq::empty()
            },
            _ => Seq::empty(),
        }
    }

    /// The world after the hook has run for `dt` microseconds.
    #[verifier::opaque]
    pub open spec fn hook_advanced(self, dt: u64) -> WorldView {
        match self.hook {
            Some(h) => WorldView { hook: Some(h.advanced(dt)), ..self },
            None => self,
        }
    }

    /// Where an enemy appears that comes from the direction `heading`:
    /// [`SPAWN_OFFSET`] from the player, along the x axis where the
    /// heading is zero.
    pub open spec fn spawn_point(player_pos: Vec2, heading: Vec2) -> Vec2 {
        player_pos.plus_spec(
            if heading == Vec2::zero() {
                Vec2 { x: SPAWN_OFFSET as i32, y: 0 }
            } else {
                scaled(heading.x as int, heading.y as int, SPAWN_OFFSET as nat)
            },
        )
    }

    /// Whether an archer appears this tick.
    pub open spec fn archer_due(self, dt: u64) -> bool {
        self.player is Some && self.archer_spawn.ticked(dt).just_finished
    }

    /// Whether a bat appears this tick.
    pub open spec fn bat_due(self, dt: u64) -> bool {
        self.player is Some && self.bat_spawn.ticked(dt).just_finished
    }

    /// The world after the archers' spawn clock has run for `dt`
    /// microseconds.
    #[verifier::opaque]
    pub open spec fn archer_spawned(self, dt: u64, heading: Vec2) -> WorldView {
        if self.archer_due(dt) {
            WorldView {
                archer_spawn: self.archer_spawn.ticked(dt),
                enemies: self.enemies.push(
                    Enemy {
                        collider: ColliderId(self.next_collider),
                        position: Self::spawn_point(self.player->0.position, heading),
                        stunned: false,
                        disabled: false,
                        score: crate::enemy::SCORE,
                        flip_x: false,
                        kind: crate::enemy::EnemyKind::Archer(
                            crate::enemy::EnemyArcher {
                                state: crate::enemy::ArcherState::Idling,
                                moving_cooldown: Cooldown {
                                    elapsed: crate::enemy::MOVING_COOLDOWN,
                                    duration: crate::enemy::MOVING_COOLDOWN,
                                    mode: CooldownMode::Once,
                                    just_finished: false,
                                },
                                shot: Cooldown {
                                    elapsed: 0,
                                    duration: self.clips.shot,
                                    mode: CooldownMode::Once,
                                    just_finished: false,
                                },
                            },
                        ),
                    },
                ),
                next_collider: next_name(self.next_collider),
                ..self
            }
        } else {
            WorldView { archer_spawn: self.archer_spawn.ticked(dt), ..self }
        }
    }

    /// The world after the bats' spawn clock has run for `dt` microseconds.
    #[verifier::opaque]
    pub open spec fn bat_spawned(self, dt: u64, heading: Vec2) -> WorldView {
        if self.bat_due(dt) {
            WorldView {
                bat_spawn: self.bat_spawn.ticked(dt),
                enemies: self.enemies.push(
                    Enemy {
                        collider: ColliderId(self.next_collider),
                        position: Self::spawn_point(self.player->0.position, heading),
                        stunned: false,
                        disabled: false,
                        score: 0,
                        flip_x: false,
                        kind: crate::enemy::EnemyKind::Bat(crate::enemy::EnemyBat),
                    },
                ),
                next_collider: next_name(self.next_collider),
                ..self
            }
        } else {
            WorldView { bat_spawn: self.bat_spawn.ticked(dt), ..self }
        }
    }

    /// One enemy after a tick of thinking, moving and being kept near
    /// the player, before it shoots.
    pub open spec fn enemy_acted(e: Enemy, player_pos: Vec2, dt: u64) -> Enemy {
        let moved = e.thought(player_pos, dt).moved(player_pos, dt).redeployed(player_pos);
        Enemy { flip_x: player_pos.x < moved.position.x, ..moved }
    }

    /// The world after the enemies have thought and moved.
    #[verifier::opaque]
    pub open spec fn enemies_acted(self, dt: u64) -> WorldView {
        match self.player {
            Some(p) => WorldView {
                enemies: self.enemies.map_values(|e: Enemy| Self::enemy_acted(e, p.position, dt)),
                ..self
            },
            None => self,
        }
    }

    /// The arrows let go by the first `n` enemies, when the first of them
    /// gets the collider `first`.
    pub open spec fn arrows(enemies: Seq<Enemy>, player_pos: Vec2, first: u64, n: int) -> Seq<
        EnemyProjectile,
    >
        decreases n,
    {
        if n <= 0 {
            Seq::empty()
        } else {
            let before = Self::arrows(enemies, player_pos, first, n - 1);
            if enemies[n - 1].shoots() {
                before.push(
                    enemies[n - 1].arrow(
                        player_pos,
                        ColliderId(Self::name_after(first, before.len())),
                    ),
                )
            } else {
                before
            }
        }
    }

    /// The name `count` names after `first`.
    pub open spec fn name_after(first: u64, count: nat) -> u64 {
        if first + count > u64::MAX {
            u64::MAX
        } else {
            (first + count) as u64
        }
    }

    /// The world after the archers whose shot is over have let their arrows
    /// go.
    #[verifier::opaque]
    pub open spec fn projectiles_spawned(self) -> WorldView {
        match self.player {
            Some(p) => {
                let arrows = Self::arrows(
                    self.enemies,
                    p.position,
                    self.next_collider,
                    self.enemies.len() as int,
                );
                WorldView {
                    enemies: self.enemies.map_values(|e: Enemy| e.shot()),
                    projectiles: self.projectiles + arrows,
                    next_collider: Self::name_after(self.next_collider, arrows.len()),
                    ..self
                }
            },
            None => self,
        }
    }

    /// The world after the arrows have flown for `dt` microseconds.
    #[verifier::opaque]
    pub open spec fn projectiles_moved(self, dt: u64) -> WorldView {
        WorldView {
            projectiles: self.projectiles.map_values(|a: EnemyProjectile| a.moved(dt)),
            reflections: self.reflections.map_values(|a: ReflectionProjectile| a.moved(dt)),
            ..self
        }
    }

    /// The player's dash hitbox, while it is switched on.
    pub open spec fn dash_hitboxes(self) -> Seq<ColliderId> {
        match self.player {
            Some(p) => if p.dash_hitbox_enabled {
                seq![p.dash_collider]
            } else {
                Seq::empty()
            },
            None => Seq::empty(),
        }
    }

    /// The hook's hitbox, while it is in play.
    pub open spec fn hook_hitbox(self) -> Option<ColliderId> {
        match self.hook {
            Some(h) => if h.retracting {
                None
            } else {
                Some(h.collider)
            },
            None => None,
        }
    }

    /// The reflected arrows that `requests` ask for, named from `first`
    /// on.
    pub open spec fn reflected(requests: Seq<SpawnReflectionProjectile>, first: u64) -> Seq<
        ReflectionProjectile,
    > {
        Seq::new(
            requests.len(),
            |k: int|
                ReflectionProjectile {
                    collider: ColliderId(Self::name_after(first, k as nat)),
                    position: requests[k].pos,
                    direction: requests[k].dir,
                    disabled: false,
                    enemy_counter: 0,
                },
        )
    }

    /// The enemies after the five rules that bring enemies down: strikes,
    /// reflected arrows, the dash and the shockwave of a landing, each
    /// over all events, in this order.
    pub open spec fn enemies_after(self, events: Seq<CollisionEvent>) -> Seq<Enemy> {
        let struck = hits(self.enemies, self.strikes, STRIKE_SCORE, events);
        let pierced = volleys(Volley { enemies: struck, reflections: self.reflections }, events);
        let run_down = hits(pierced.enemies, self.dash_hitboxes(), DASH_SCORE, events);
        hits(run_down, self.dash_landings, DASH_LANDING_SCORE, events)
    }

    /// The reflections that the events of this tick ask for.
    pub open spec fn reflection_requests(self, events: Seq<CollisionEvent>) -> Seq<
        SpawnReflectionProjectile,
    > {
        deflections(self.projectiles, self.strikes, events).requests
    }

    /// Whether the events of this tick defeat the player: its hurtbox is
    /// on and starts to overlap an enemy or an arrow that is still in
    /// play after the enemies' own rules.
    pub open spec fn player_hurt(self, events: Seq<CollisionEvent>) -> bool {
        self.player matches Some(p) && p.hurtbox_enabled && (harmed(
            p.collider_entity,
            self.enemies_after(events),
            events,
        ) || harmed(
            p.collider_entity,
            deflections(self.projectiles, self.strikes, events).projectiles,
            events,
        ))
    }

    /// The world after the overlaps of this tick.
    #[verifier::opaque]
    pub open spec fn collided(self, events: Seq<CollisionEvent>) -> WorldView {
        let struck = hits(self.enemies, self.strikes, STRIKE_SCORE, events);
        let sent_back = deflections(self.projectiles, self.strikes, events);
        let pierced = volleys(Volley { enemies: struck, reflections: self.reflections }, events);
        let enemies = self.enemies_after(events);
        let reflections = pierced.reflections + Self::reflected(
            sent_back.requests,
            self.next_collider,
        );
        let next_collider = Self::name_after(self.next_collider, sent_back.requests.len());
        match self.player {
            Some(p) => {
                let hurt = Player { disabled: p.disabled || self.player_hurt(events), ..p };
                let caught = catches(
                    Catch { player: hurt, enemies },
                    self.hook_hitbox(),
                    events,
                );
                WorldView {
                    player: Some(caught.player),
                    enemies: caught.enemies,
                    projectiles: sent_back.projectiles,
                    reflections,
                    next_collider,
                    ..self
                }
            },
            None => WorldView {
                enemies,
                projectiles: sent_back.projectiles,
                reflections,
                next_collider,
                ..self
            },
        }
    }

    /// The score after the disabled among `enemies` have been paid out.
    pub open spec fn bounty(score: PlayerScore, enemies: Seq<Enemy>) -> PlayerScore
        decreases enemies.len(),
    {
        if enemies.len() == 0 {
            score
        } else if enemies.last().disabled {
            Self::bounty(score, enemies.drop_last()).added(enemies.last().score)
        } else {
            Self::bounty(score, enemies.drop_last())
        }
    }

    /// The kill count after the disabled among `enemies` have been
    /// counted.
    pub open spec fn tally(kills: KillCounter, enemies: Seq<Enemy>) -> KillCounter
        decreases enemies.len(),
    {
        if enemies.len() == 0 {
            kills
        } else if enemies.last().disabled {
            Self::tally(kills, enemies.drop_last()).increased()
        } else {
            Self::tally(kills, enemies.drop_last())
        }
    }

    /// The notices for the disabled among `enemies`.
    pub open spec fn obituaries(enemies: Seq<Enemy>) -> Seq<DespawnEnemy>
        decreases enemies.len(),
    {
        if enemies.len() == 0 {
            Seq::empty()
        } else if enemies.last().disabled {
            Self::obituaries(enemies.drop_last()).push(
                DespawnEnemy { enemy: enemies.last(), pos: enemies.last().position },
            )
        } else {
            Self::obituaries(enemies.drop_last())
        }
    }

    /// The world after everything that is marked for removal has been
    /// removed: disabled enemies are paid out and counted, disabled
    /// arrows go, and strikes and shockwaves go when their time is up.
    #[verifier::opaque]
    pub open spec fn despawned(self, dt: u64) -> WorldView {
        WorldView {
            score: Self::bounty(self.score, self.enemies),
            kills: Self::tally(self.kills, self.enemies),
            enemies: in_play(self.enemies),
            projectiles: in_play(self.projectiles),
            reflections: in_play(self.reflections),
            strikes: in_play(self.strikes.map_values(|s: Strike| s.ticked(dt))),
            dash_landings: in_play(self.dash_landings.map_values(|l: DashLanding| l.ticked(dt))),
            ..self
        }
    }

    /// The change of the player's state that the end of the tick
    /// announces.
    pub open spec fn announcement(self) -> Option<PlayerChangedState> {
        match self.player {
            Some(p) => if p.state != self.announced {
                Some(PlayerChangedState { old_state: self.announced, new_state: p.state })
            } else {
                None
            },
            None => None,
        }
    }

    /// The time the player has been in its state at the end of the tick.
    pub open spec fn clock_after(self, dt: u64) -> u64 {
        if self.announcement() is Some {
            0
        } else if self.player_clock + dt > u64::MAX {
            u64::MAX
        } else {
            (self.player_clock + dt) as u64
        }
    }

    /// The world at the end of the tick: a change of the player's state
    /// is announced and starts its clock anew, a dash ends with its
    /// animation and the hook comes back when its time is up.
    #[verifier::opaque]
    pub open spec fn settled(self, dt: u64) -> WorldView {
        match self.player {
            Some(p) => {
                let clock = self.clock_after(dt);
                let rested = if p.state == PlayerState::Dashing && clock >= self.clips.dash {
                    Player { state: PlayerState::Idling, ..p }
                } else if p.state == PlayerState::Hooking && clock >= HOOK_TIME {
                    Player { state: PlayerState::Idling, ..p }
                } else {
                    p
                };
                WorldView {
                    player: Some(Player { flip_x: rested.flip_after(), ..rested }),
                    player_clock: clock,
                    announced: p.state,
                    change: self.announcement(),
                    ..self
                }
            },
            None => self,
        }
    }

    /// The world without its enemies and arrows, and with score and kill
    /// count at zero.
    pub open spec fn cleared(self) -> WorldView {
        WorldView {
            enemies: Seq::empty(),
            projectiles: Seq::empty(),
            reflections: Seq::empty(),
            strikes: Seq::empty(),
            dash_landings: Seq::empty(),
            hook: None,
            score: PlayerScore { score: 0 },
            kills: KillCounter { kills: 0 },
            ..self
        }
    }

    /// The world after the player's position has been taken over and the
    /// dash and hook inputs have been answered.
    #[verifier::opaque]
    pub open spec fn stage_intent(self, frame: Frame) -> WorldView {
        self.synced(frame.player_position).dash_triggered(frame.dt, frame.input.dash).hook_triggered(
            frame.input.hook,
        )
    }

    /// The world after the attack and movement inputs have been answered.
    #[verifier::opaque]
    pub open spec fn stage_change(self, frame: Frame) -> WorldView {
        self.stage_intent(frame).strike_triggered(
            frame.dt,
            frame.input.attack,
            frame.cursor.0,
        ).player_moved(frame.input.move_direction)
    }

    /// The world after everything has moved, before the overlaps are
    /// looked at.
    #[verifier::opaque]
    pub open spec fn stage_contact(self, frame: Frame) -> WorldView {
        self.stage_change(frame).change_applied(frame.cursor.0).hook_advanced(
            frame.dt,
        ).archer_spawned(frame.dt, frame.archer_heading).bat_spawned(
            frame.dt,
            frame.bat_heading,
        ).enemies_acted(frame.dt).projectiles_spawned().projectiles_moved(frame.dt)
    }

    /// The world after the overlaps, before anything is removed.
    #[verifier::opaque]
    pub open spec fn stage_removal(self, frame: Frame, events: Seq<CollisionEvent>) -> WorldView {
        self.stage_contact(frame).collided(events)
    }

    /// The world after one tick.
    #[verifier::opaque]
    pub open spec fn ticked(self, frame: Frame, events: Seq<CollisionEvent>) -> WorldView {
        self.stage_removal(frame, events).despawned(frame.dt).settled(frame.dt)
    }
}

impl World {
    /// A world with nothing in it: no player, no enemies, no score, the
    /// dash ready and the spawn clocks at their start.
    pub fn new(clips: Clips) -> (w: World)
        ensures
            w@ == WorldView::empty(clips),
    {
        let w = World {
            player: None,
            player_clock: 0,
            announced: PlayerState::Idling,
            change: None,
            hook: None,
            strikes: Vec::new(),
            dash_landings: Vec::new(),
            reflections: Vec::new(),
            enemies: Vec::new(),
            projectiles: Vec::new(),
            dash_timer: Cooldown::ready(DASH_COOLDOWN),
            strike_cooldown: StrikeCooldown::new(),
            archer_spawn: Cooldown::new(ARCHER_SPAWN_INTERVAL, CooldownMode::Repeating),
            bat_spawn: Cooldown::new(BAT_SPAWN_INTERVAL, CooldownMode::Repeating),
            score: PlayerScore::new(),
            kills: KillCounter::new(),
            clips,
            next_collider: 0,
        };
        proof {
            assert(w@.strikes =~= Seq::<Strike>::empty());
            assert(w@ =~~= WorldView::empty(clips));
        }
        w
    }

    /// Gives out a collider name that was not given out before.
    pub fn fresh_collider(&mut self) -> (c: ColliderId)
        ensures
            c == ColliderId(old(self).next_collider),
            final(self)@ == (WorldView {
                next_collider: next_name(old(self).next_collider),
                ..old(self)@
            }),
    {
        let c = ColliderId(self.next_collider);
        if self.next_collider < u64::MAX {
            self.next_collider = self.next_collider + 1;
        }
        c
    }

    /// Puts a new player at the starting place.
    pub fn spawn_player(&mut self)
        ensures
            final(self)@ == old(self)@.player_spawned(),
    {
        let body = self.fresh_collider();
        let dash = self.fresh_collider();
        self.player = Some(Player::new(body, dash, Vec2::new(PLAYER_SPAWN_X, PLAYER_SPAWN_Y)));
        self.player_clock = 0;
        self.announced = PlayerState::Idling;
        self.change = None;
        self.hook = None;
    }

    /// Removes the player, its hook and its strikes.
    pub fn despawn_player(&mut self)
        ensures
            final(self)@ == old(self)@.player_despawned(),
    {
        self.player = None;
        self.hook = None;
        self.strikes = Vec::new();
        self.change = None;
    }

    /// Takes over the player's position from the physics collaborator.
    pub fn sync_player(&mut self, position: Vec2)
        ensures
            final(self)@ == old(self)@.synced(position),
            final(self).score == old(self).score,
            final(self).kills == old(self).kills,
    {
        proof {
            reveal(WorldView::synced);
        }
        if let Some(mut p) = self.player {
            p.position = position;
            self.player = Some(p);
        }
    }

    /// Ticks the dash cooldown and starts a dash where the input asks for
    /// one, the cooldown has run out and the player walks, stands or
    /// slides. Without a player nothing happens.
    pub fn trigger_dash(&mut self, dt: u64, dash: bool) -> (started: bool)
        ensures
            started == old(self)@.dashes(dt, dash),
            final(self)@ == old(self)@.dash_triggered(dt, dash),
            final(self).score == old(self).score,
            final(self).kills == old(self).kills,
    {
        proof {
            reveal(WorldView::dash_triggered);
        }
        if let Some(mut p) = self.player {
            let started = p.trigger_dash(&mut self.dash_timer, dt, dash);
            self.player = Some(p);
            started
        } else {
            false
        }
    }

    /// Throws the hook where the input asks for it and the player walks
    /// or stands.
    pub fn trigger_hook(&mut self, hook: bool)
        ensures
            final(self)@ == old(self)@.hook_triggered(hook),
            final(self).score == old(self).score,
            final(self).kills == old(self).kills,
    {
        proof {
            reveal(WorldView::hook_triggered);
        }
        if let Some(mut p) = self.player {
            p.trigger_hook(hook);
            self.player = Some(p);
        }
    }

    /// Runs the strike chain for one tick. A strike that is given out
    /// joins the world with a hitbox of its own, facing the cursor.
    pub fn trigger_strike(&mut self, dt: u64, attack: bool, cursor: Vec2) -> (request: Option<
        SpawnStrike,
    >)
        ensures
            request == old(self)@.strike_request(dt, attack, cursor),
            final(self)@ == old(self)@.strike_triggered(dt, attack, cursor),
            final(self).score == old(self).score,
            final(self).kills == old(self).kills,
    {
        proof {
            reveal(WorldView::strike_triggered);
        }
        let (attack, rot) = match self.player {
            Some(p) => (attack, cursor.minus(p.position)),
            None => (false, Vec2::origin()),
        };
        let request = self.strike_cooldown.frame(dt, attack, rot);
        if let Some(r) = request {
            let collider = self.fresh_collider();
            self.strikes.push(Strike::new(collider, r));
        }
        request
    }

    /// Walks the player along the movement input and pulls it along a
    /// slide.
    pub fn player_movement(&mut self, direction: Vec2)
        ensures
            final(self)@ == old(self)@.player_moved(direction),
            final(self).score == old(self).score,
            final(self).kills == old(self).kills,
    {
        proof {
            reveal(WorldView::player_moved);
        }
        if let Some(mut p) = self.player {
            p.player_movement(direction);
            p.slide_player();
            self.player = Some(p);
        }
    }
    /// Answers the change of the player's state that was announced at the
    /// end of the last tick: a dash is launched and switches the
    /// colliders, the end of a dash leaves a shockwave, the hook is
    /// thrown or taken back. Returns the trail that a boosted dash leaves.
    pub fn apply_change(&mut self, cursor: Vec2) -> (trail: Vec<SpawnSuperSonic>)
        ensures
            final(self)@ == old(self)@.change_applied(cursor),
            final(self).score == old(self).score,
            final(self).kills == old(self).kills,
            trail@ == old(self)@.change_trail(),
    {
        proof {
            reveal(WorldView::change_applied);
        }
        let change = self.change;
        self.change = None;
        let (mut p, change) = match (self.player, change) {
            (Some(p), Some(change)) => (p, change),
            _ => {
                return Vec::new();
            },
        };
        let before = p;
        let trail = p.move_player(change, cursor);
        p.toggle_player_collider(change);
        if change.old_state == PlayerState::Dashing {
            let collider = self.fresh_collider();
            self.dash_landings.push(
                DashLanding::new(collider, before.dash_landing_position(), self.clips.dash_landing),
            );
        }
        if change.new_state == PlayerState::Hooking {
            let collider = self.fresh_collider();
            let hook = PlayerHook::new(collider, before.position, cursor, self.clips.hook);
            if change.old_state != PlayerState::Dashing {
                p.flip_x = hook.direction.x < 0;
            }
            self.hook = Some(hook);
        } else if change.old_state == PlayerState::Hooking {
            self.hook = None;
        }
        self.player = Some(p);
        trail
    }

    /// Runs the hook's hitbox out, and takes it away once the hook has
    /// run out all the way.
    pub fn advance_hook(&mut self, dt: u64)
        ensures
            final(self)@ == old(self)@.hook_advanced(dt),
            final(self).score == old(self).score,
            final(self).kills == old(self).kills,
    {
        proof {
            reveal(WorldView::hook_advanced);
        }
        if let Some(mut h) = self.hook {
            h.advance(dt);
            self.hook = Some(h);
        }
    }

    /// Where an enemy appears that comes from the direction `heading`.
    pub fn spawn_position(player_pos: Vec2, heading: Vec2) -> (pos: Vec2)
        ensures
            pos == WorldView::spawn_point(player_pos, heading),
    {
        if heading.is_zero() {
            player_pos.plus(Vec2::new(900_000, 0))
        } else {
            player_pos.plus(heading.with_length(SPAWN_OFFSET))
        }
    }

    /// Ticks the archers' spawn clock; each time it fires while there is
    /// a player, an archer appears [`SPAWN_OFFSET`] from the player in the
    /// direction `heading`.
    pub fn spawn_archers(&mut self, dt: u64, heading: Vec2) -> (spawned: bool)
        ensures
            spawned == old(self)@.archer_due(dt),
            final(self)@ == old(self)@.archer_spawned(dt, heading),
            final(self).score == old(self).score,
            final(self).kills == old(self).kills,
    {
        proof {
            reveal(WorldView::archer_spawned);
        }
        self.archer_spawn.tick(dt);
        match self.player {
            Some(p) => {
                if !self.archer_spawn.just_finished() {
                    return false;
                }
                let collider = self.fresh_collider();
                let enemy = Enemy::archer(
                    collider,
                    Self::spawn_position(p.position, heading),
                    self.clips.shot,
                );
                self.enemies.push(enemy);
                true
            },
            None => false,
        }
    }

    /// Ticks the bats' spawn clock; each time it fires while there is a
    /// player, a bat appears [`SPAWN_OFFSET`] from the player in the
    /// direction `heading`.
    pub fn spawn_bats(&mut self, dt: u64, heading: Vec2) -> (spawned: bool)
        ensures
            spawned == old(self)@.bat_due(dt),
            final(self)@ == old(self)@.bat_spawned(dt, heading),
            final(self).score == old(self).score,
            final(self).kills == old(self).kills,
    {
        proof {
            reveal(WorldView::bat_spawned);
        }
        self.bat_spawn.tick(dt);
        match self.player {
            Some(p) => {
                if !self.bat_spawn.just_finished() {
                    return false;
                }
                let collider = self.fresh_collider();
                self.enemies.push(Enemy::bat(collider, Self::spawn_position(p.position, heading)));
                true
            },
            None => false,
        }
    }

    /// Lets every enemy think, move toward the player, come back if it
    /// has strayed, and turn its sprite. Without a player they stand.
    pub fn move_enemies(&mut self, dt: u64)
        ensures
            final(self)@ == old(self)@.enemies_acted(dt),
            final(self).score == old(self).score,
            final(self).kills == old(self).kills,
    {
        proof {
            reveal(WorldView::enemies_acted);
        }
        let player_pos = match self.player {
            Some(p) => p.position,
            None => {
                return ;
            },
        };
        let ghost before = self.enemies@;
        let mut i: usize = 0;
        while i < self.enemies.len()
            invariant
                i <= self.enemies.len(),
                self.enemies.len() == before.len(),
                forall|j: int|
                    0 <= j < i ==> self.enemies@[j] == WorldView::enemy_acted(
                        before[j],
                        player_pos,
                        dt,
                    ),
                forall|j: int| i <= j < before.len() ==> self.enemies@[j] == before[j],
                self@ == (WorldView { enemies: self.enemies@, ..old(self)@ }),
            decreases self.enemies.len() - i,
        {
            let mut enemy = self.enemies[i];
            enemy.think(player_pos, dt);
            enemy.move_enemy(player_pos, dt);
            enemy.redeploy(player_pos);
            enemy.adjust_sprite_flip(player_pos);
            self.enemies.set(i, enemy);
            i = i + 1;
        }
        proof {
            assert(self.enemies@ =~= before.map_values(
                |e: Enemy| WorldView::enemy_acted(e, player_pos, dt),
            ));
        }
    }

    /// Lets every archer whose shot is over let its arrow go, aimed at
    /// where the player is now.
    pub fn spawn_projectiles(&mut self)
        ensures
            final(self)@ == old(self)@.projectiles_spawned(),
            final(self).score == old(self).score,
            final(self).kills == old(self).kills,
    {
        proof {
            reveal(WorldView::projectiles_spawned);
        }
        let player_pos = match self.player {
            Some(p) => p.position,
            None => {
                return ;
            },
        };
        let ghost before = self.enemies@;
        let ghost first = self.next_collider;
        let ghost quiver = self.projectiles@;
        let mut i: usize = 0;
        while i < self.enemies.len()
            invariant
                i <= self.enemies.len(),
                self.enemies.len() == before.len(),
                forall|j: int| 0 <= j < i ==> self.enemies@[j] == before[j].shot(),
                forall|j: int| i <= j < before.len() ==> self.enemies@[j] == before[j],
                self.projectiles@ == quiver + WorldView::arrows(
                    before,
                    player_pos,
                    first,
                    i as int,
                ),
                self.next_collider == WorldView::name_after(
                    first,
                    WorldView::arrows(before, player_pos, first, i as int).len(),
                ),
                self@ == (WorldView {
                    enemies: self.enemies@,
                    projectiles: self.projectiles@,
                    next_collider: self.next_collider,
                    ..old(self)@
                }),
            decreases self.enemies.len() - i,
        {
            let mut enemy = self.enemies[i];
            let collider = ColliderId(self.next_collider);
            if let Some(arrow) = enemy.spawn_projectile(player_pos, collider) {
                self.projectiles.push(arrow);
                if self.next_collider < u64::MAX {
                    self.next_collider = self.next_collider + 1;
                }
                proof {
                    let so_far = WorldView::arrows(before, player_pos, first, i as int);
                    assert(self.projectiles@ =~= quiver + so_far.push(arrow));
                }
            }
            self.enemies.set(i, enemy);
            i = i + 1;
        }
        proof {
            assert(self.enemies@ =~= before.map_values(|e: Enemy| e.shot()));
        }
    }

    /// Lets every arrow fly on, those of the archers and those sent back.
    pub fn move_projectiles(&mut self, dt: u64)
        ensures
            final(self)@ == old(self)@.projectiles_moved(dt),
            final(self).score == old(self).score,
            final(self).kills == old(self).kills,
    {
        proof {
            reveal(WorldView::projectiles_moved);
        }
        let ghost arrows = self.projectiles@;
        let mut i: usize = 0;
        while i < self.projectiles.len()
            invariant
                i <= self.projectiles.len(),
                self.projectiles.len() == arrows.len(),
                forall|j: int| 0 <= j < i ==> self.projectiles@[j] == arrows[j].moved(dt),
                forall|j: int| i <= j < arrows.len() ==> self.projectiles@[j] == arrows[j],
                self@ == (WorldView { projectiles: self.projectiles@, ..old(self)@ }),
            decreases self.projectiles.len() - i,
        {
            let mut arrow = self.projectiles[i];
            arrow.move_projectile(dt);
            self.projectiles.set(i, arrow);
            i = i + 1;
        }
        let ghost returned = self.reflections@;
        let mut i: usize = 0;
        while i < self.reflections.len()
            invariant
                i <= self.reflections.len(),
                self.reflections.len() == returned.len(),
                returned == old(self)@.reflections,
                forall|j: int| 0 <= j < i ==> self.reflections@[j] == returned[j].moved(dt),
                forall|j: int| i <= j < returned.len() ==> self.reflections@[j] == returned[j],
                self.projectiles@ =~= arrows.map_values(|a: EnemyProjectile| a.moved(dt)),
                arrows == old(self)@.projectiles,
                self@ == (WorldView {
                    projectiles: self.projectiles@,
                    reflections: self.reflections@,
                    ..old(self)@
                }),
            decreases self.reflections.len() - i,
        {
            let mut arrow = self.reflections[i];
            arrow.move_projectile(dt);
            self.reflections.set(i, arrow);
            i = i + 1;
        }
        proof {
            assert(self.reflections@ =~= returned.map_values(
                |a: ReflectionProjectile| a.moved(dt),
            ));
        }
    }
    /// Applies the overlaps of this tick: the five rules that bring
    /// enemies down, each over all events, then what hurts the player, then
    /// the hook. Returns the reflections asked for, which have joined the
    /// world already.
    pub fn resolve_collisions(&mut self, events: &Vec<CollisionEvent>) -> (requests: Vec<
        SpawnReflectionProjectile,
    >)
        ensures
            final(self)@ == old(self)@.collided(events@),
            final(self).score == old(self).score,
            final(self).kills == old(self).kills,
            requests@ == old(self)@.reflection_requests(events@),
    {
        proof {
            reveal(WorldView::collided);
        }
        let mut dash_hitboxes: Vec<ColliderId> = Vec::new();
        let mut hook_hitbox: Option<ColliderId> = None;
        if let Some(p) = self.player {
            if p.dash_hitbox_enabled {
                dash_hitboxes.push(p.dash_collider);
            }
        }
        if let Some(h) = self.hook {
            if !h.retracting {
                hook_hitbox = Some(h.collider);
            }
        }
        proof {
            assert(dash_hitboxes@ =~= old(self)@.dash_hitboxes());
        }
        defeat_on_contact(&mut self.enemies, &self.strikes, STRIKE_SCORE, events);
        let requests = projectile_strike_collisions(&mut self.projectiles, &self.strikes, events);
        player_reflection_projectiles_collisions(&mut self.reflections, &mut self.enemies, events);
        defeat_on_contact(&mut self.enemies, &dash_hitboxes, DASH_SCORE, events);
        defeat_on_contact(&mut self.enemies, &self.dash_landings, DASH_LANDING_SCORE, events);
        let ghost first = self.next_collider;
        let ghost pierced = self.reflections@;
        let mut k: usize = 0;
        while k < requests.len()
            invariant
                k <= requests.len(),
                self.reflections@ == pierced + WorldView::reflected(requests@, first).take(
                    k as int,
                ),
                self.next_collider == WorldView::name_after(first, k as nat),
                self@ == (WorldView {
                    enemies: self.enemies@,
                    projectiles: self.projectiles@,
                    reflections: self.reflections@,
                    next_collider: self.next_collider,
                    ..old(self)@
                }),
                self.enemies@ == old(self)@.enemies_after(events@),
                self.projectiles@ == deflections(
                    old(self)@.projectiles,
                    old(self)@.strikes,
                    events@,
                ).projectiles,
            decreases requests.len() - k,
        {
            let collider = ColliderId(self.next_collider);
            if self.next_collider < u64::MAX {
                self.next_collider = self.next_collider + 1;
            }
            self.reflections.push(ReflectionProjectile::new(collider, requests[k]));
            proof {
                let all = WorldView::reflected(requests@, first);
                assert(all.take(k + 1) =~= all.take(k as int).push(all[k as int]));
                assert(self.reflections@ =~= pierced + all.take(k + 1));
            }
            k = k + 1;
        }
        proof {
            let all = WorldView::reflected(requests@, first);
            assert(all.take(requests.len() as int) =~= all);
        }
        if let Some(mut p) = self.player {
            if p.hurtbox_enabled {
                if touched(p.collider_entity, &self.enemies, events) || touched(
                    p.collider_entity,
                    &self.projectiles,
                    events,
                ) {
                    p.disabled = true;
                }
            }
            hook_enemy_collision(&mut p, hook_hitbox, &mut self.enemies, events);
            self.player = Some(p);
        }
        requests
    }

    /// Removes what is marked for removal. Every disabled enemy is paid
    /// out to the score, counted as a kill and reported; disabled arrows
    /// go with it; strikes and shockwaves are ticked and go when their
    /// time is up.
    pub fn despawn(&mut self, dt: u64) -> (notices: Vec<DespawnEnemy>)
        ensures
            final(self)@ == old(self)@.despawned(dt),
            notices@ == WorldView::obituaries(old(self)@.enemies),
            final(self).score.score >= old(self).score.score,
            final(self).kills.kills >= old(self).kills.kills,
    {
        proof {
            reveal(WorldView::despawned);
        }
        let mut notices: Vec<DespawnEnemy> = Vec::new();
        let mut i: usize = 0;
        while i < self.enemies.len()
            invariant
                i <= self.enemies.len(),
                self.score == WorldView::bounty(old(self).score, self.enemies@.take(i as int)),
                self.kills == WorldView::tally(old(self).kills, self.enemies@.take(i as int)),
                notices@ == WorldView::obituaries(self.enemies@.take(i as int)),
                self.score.score >= old(self).score.score,
                self.kills.kills >= old(self).kills.kills,
                self@ == (WorldView { score: self.score, kills: self.kills, ..old(self)@ }),
            decreases self.enemies.len() - i,
        {
            let enemy = self.enemies[i];
            proof {
                assert(self.enemies@.take(i + 1).drop_last() =~= self.enemies@.take(i as int));
                assert(self.enemies@.take(i + 1).last() == self.enemies@[i as int]);
            }
            if enemy.disabled {
                self.kills.increase();
                self.score.add(enemy.score);
                notices.push(DespawnEnemy { enemy, pos: enemy.position });
            }
            i = i + 1;
        }
        proof {
            assert(self.enemies@.take(self.enemies.len() as int) =~= self.enemies@);
        }
        sweep(&mut self.enemies);
        sweep(&mut self.projectiles);
        sweep(&mut self.reflections);
        let ghost strikes = self.strikes@;
        let mut i: usize = 0;
        while i < self.strikes.len()
            invariant
                i <= self.strikes.len(),
                self.strikes.len() == strikes.len(),
                forall|j: int| 0 <= j < i ==> self.strikes@[j] == strikes[j].ticked(dt),
                forall|j: int| i <= j < strikes.len() ==> self.strikes@[j] == strikes[j],
                self@ == (WorldView {
                    strikes: self.strikes@,
                    dash_landings: old(self)@.dash_landings,
                    ..old(self)@.despawned(dt)
                }),
                strikes == old(self)@.strikes,
                self.score.score >= old(self).score.score,
                self.kills.kills >= old(self).kills.kills,
            decreases self.strikes.len() - i,
        {
            let mut strike = self.strikes[i];
            strike.tick(dt);
            self.strikes.set(i, strike);
            i = i + 1;
        }
        proof {
            assert(self.strikes@ =~= strikes.map_values(|s: Strike| s.ticked(dt)));
        }
        sweep(&mut self.strikes);
        let ghost landings = self.dash_landings@;
        let mut i: usize = 0;
        while i < self.dash_landings.len()
            invariant
                i <= self.dash_landings.len(),
                self.dash_landings.len() == landings.len(),
                forall|j: int| 0 <= j < i ==> self.dash_landings@[j] == landings[j].ticked(dt),
                forall|j: int| i <= j < landings.len() ==> self.dash_landings@[j] == landings[j],
                self@ == (WorldView {
                    dash_landings: self.dash_landings@,
                    ..old(self)@.despawned(dt)
                }),
                landings == old(self)@.dash_landings,
                self.score.score >= old(self).score.score,
                self.kills.kills >= old(self).kills.kills,
            decreases self.dash_landings.len() - i,
        {
            let mut landing = self.dash_landings[i];
            landing.tick(dt);
            self.dash_landings.set(i, landing);
            i = i + 1;
        }
        proof {
            assert(self.dash_landings@ =~= landings.map_values(|l: DashLanding| l.ticked(dt)));
        }
        sweep(&mut self.dash_landings);
        notices
    }

    /// Ends the tick for the player: announces a change of its state,
    /// keeps the time it has spent in it, ends a dash with its animation,
    /// takes the hook back after [`HOOK_TIME`], and turns the sprite.
    pub fn settle(&mut self, dt: u64) -> (change: Option<PlayerChangedState>)
        ensures
            final(self)@ == old(self)@.settled(dt),
            change == old(self)@.announcement(),
            final(self).score == old(self).score,
            final(self).kills == old(self).kills,
    {
        proof {
            reveal(WorldView::settled);
        }
        if let Some(mut p) = self.player {
            let change = player_changed_state(&p, &mut self.announced);
            self.player_clock = if change.is_some() {
                0
            } else {
                self.player_clock.saturating_add(dt)
            };
            p.leave_dash(self.player_clock >= self.clips.dash);
            p.stop_hooking(self.player_clock);
            p.adjust_sprite_flip();
            self.player = Some(p);
            self.change = change;
            change
        } else {
            None
        }
    }

    /// Empties the world for a new session: enemies, arrows, strikes and
    /// shockwaves go, and score and kill count start at zero.
    pub fn clear(&mut self)
        ensures
            final(self)@ == old(self)@.cleared(),
    {
        self.enemies = Vec::new();
        self.projectiles = Vec::new();
        self.reflections = Vec::new();
        self.strikes = Vec::new();
        self.dash_landings = Vec::new();
        self.hook = None;
        self.score = PlayerScore::new();
        self.kills = KillCounter::new();
    }
    /// One tick of the world. The systems run in a fixed order: input,
    /// then movement and spawning, then the overlaps that physics has
    /// reported for this tick, then removal and scoring, and last the
    /// timed ends of the player's states. So a kill is scored and removed
    /// in the tick in which it happens, and an overlap wins over a timer
    /// that runs out in the same tick.
    pub fn tick(&mut self, frame: Frame, events: &Vec<CollisionEvent>) -> (report: Report)
        ensures
            final(self)@ == old(self)@.ticked(frame, events@),
            report.strike == old(self)@.stage_intent(frame).strike_request(
                frame.dt,
                frame.input.attack,
                frame.cursor.0,
            ),
            report.trail@ == old(self)@.stage_change(frame).change_trail(),
            report.reflections@ == old(self)@.stage_contact(frame).reflection_requests(events@),
            report.despawned@ == WorldView::obituaries(
                old(self)@.stage_removal(frame, events@).enemies,
            ),
            report.change == old(self)@.stage_removal(frame, events@).despawned(
                frame.dt,
            ).announcement(),
            report.dash_ready == final(self).dash_timer.just_finished,
            report.game_over == (final(self).player matches Some(p) && p.disabled),
            final(self).score.score >= old(self).score.score,
            final(self).kills.kills >= old(self).kills.kills,
    {
        proof {
            reveal(WorldView::stage_intent);
            reveal(WorldView::stage_change);
            reveal(WorldView::stage_contact);
            reveal(WorldView::stage_removal);
            reveal(WorldView::ticked);
        }
        self.sync_player(frame.player_position);
        self.trigger_dash(frame.dt, frame.input.dash);
        self.trigger_hook(frame.input.hook);
        let strike = self.trigger_strike(frame.dt, frame.input.attack, frame.cursor.0);
        self.player_movement(frame.input.move_direction);
        let trail = self.apply_change(frame.cursor.0);
        self.advance_hook(frame.dt);
        self.spawn_archers(frame.dt, frame.archer_heading);
        self.spawn_bats(frame.dt, frame.bat_heading);
        self.move_enemies(frame.dt);
        self.spawn_projectiles();
        self.move_projectiles(frame.dt);
        let reflections = self.resolve_collisions(events);
        let despawned = self.despawn(frame.dt);
        let change = self.settle(frame.dt);
        let game_over = match self.player {
            Some(p) => p.disabled,
            None => false,
        };
        let dash_ready = self.dash_timer.just_finished();
        Report { strike, trail, reflections, despawned, change, dash_ready, game_over }
    }
}

/// Paying out and counting never lowers the score or the kill count.
pub proof fn lemma_bounty_grows(score: PlayerScore, kills: KillCounter, enemies: Seq<Enemy>)
    ensures
        WorldView::bounty(score, enemies).score >= score.score,
        WorldView::tally(kills, enemies).kills >= kills.kills,
    decreases enemies.len(),
{
    if enemies.len() > 0 {
        lemma_bounty_grows(score, kills, enemies.drop_last());
    }
}

/// How many of `enemies` are disabled.
pub open spec fn fallen(enemies: Seq<Enemy>) -> nat
    decreases enemies.len(),
{
    if enemies.len() == 0 {
        0
    } else {
        fallen(enemies.drop_last()) + if enemies.last().disabled {
            1nat
        } else {
            0nat
        }
    }
}

/// What the disabled among `enemies` are worth together.
pub open spec fn purse(enemies: Seq<Enemy>) -> nat
    decreases enemies.len(),
{
    if enemies.len() == 0 {
        0
    } else {
        purse(enemies.drop_last()) + if enemies.last().disabled {
            enemies.last().score as nat
        } else {
            0nat
        }
    }
}

/// Removal adds to the score what the disabled enemies are worth, and
/// to the kill count how many they are; both stop at `u32::MAX`.
pub proof fn lemma_bounty_exact(score: PlayerScore, kills: KillCounter, enemies: Seq<Enemy>)
    ensures
        WorldView::bounty(score, enemies).score == if score.score + purse(enemies) > u32::MAX {
            u32::MAX as int
        } else {
            score.score + purse(enemies)
        },
        WorldView::tally(kills, enemies).kills == if kills.kills + fallen(enemies) > u32::MAX {
            u32::MAX as int
        } else {
            kills.kills + fallen(enemies)
        },
    decreases enemies.len(),
{
    if enemies.len() > 0 {
        lemma_bounty_exact(score, kills, enemies.drop_last());
    }
}

/// What holds of the player of a world, if it has one.
pub open spec fn player_is(w: WorldView, holds: spec_fn(Player) -> bool) -> bool {
    w.player matches Some(q) && holds(q)
}

/// No system but the one that removes the disabled touches the score or
/// the kill count.
pub proof fn lemma_systems_keep_score(w: WorldView, frame: Frame, events: Seq<CollisionEvent>)
    ensures
        w.synced(frame.player_position).score == w.score,
        w.synced(frame.player_position).kills == w.kills,
        w.dash_triggered(frame.dt, frame.input.dash).score == w.score,
        w.dash_triggered(frame.dt, frame.input.dash).kills == w.kills,
        w.hook_triggered(frame.input.hook).score == w.score,
        w.hook_triggered(frame.input.hook).kills == w.kills,
        w.strike_triggered(frame.dt, frame.input.attack, frame.cursor.0).score == w.score,
        w.strike_triggered(frame.dt, frame.input.attack, frame.cursor.0).kills == w.kills,
        w.player_moved(frame.input.move_direction).score == w.score,
        w.player_moved(frame.input.move_direction).kills == w.kills,
        w.change_applied(frame.cursor.0).score == w.score,
        w.change_applied(frame.cursor.0).kills == w.kills,
        w.hook_advanced(frame.dt).score == w.score,
        w.hook_advanced(frame.dt).kills == w.kills,
        w.archer_spawned(frame.dt, frame.archer_heading).score == w.score,
        w.archer_spawned(frame.dt, frame.archer_heading).kills == w.kills,
        w.bat_spawned(frame.dt, frame.bat_heading).score == w.score,
        w.bat_spawned(frame.dt, frame.bat_heading).kills == w.kills,
        w.enemies_acted(frame.dt).score == w.score,
        w.enemies_acted(frame.dt).kills == w.kills,
        w.projectiles_spawned().score == w.score,
        w.projectiles_spawned().kills == w.kills,
        w.projectiles_moved(frame.dt).score == w.score,
        w.projectiles_moved(frame.dt).kills == w.kills,
        w.collided(events).score == w.score,
        w.collided(events).kills == w.kills,
        w.settled(frame.dt).score == w.score,
        w.settled(frame.dt).kills == w.kills,
{
    reveal(WorldView::synced);
    reveal(WorldView::dash_triggered);
    reveal(WorldView::hook_triggered);
    reveal(WorldView::strike_triggered);
    reveal(WorldView::player_moved);
    reveal(WorldView::change_applied);
    reveal(WorldView::hook_advanced);
    reveal(WorldView::archer_spawned);
    reveal(WorldView::bat_spawned);
    reveal(WorldView::enemies_acted);
    reveal(WorldView::projectiles_spawned);
    reveal(WorldView::projectiles_moved);
    reveal(WorldView::collided);
    reveal(WorldView::settled);
}

/// Score and kill count never fall in a tick: they stay as they are
/// until the disabled are removed, and that only pays out and counts.
pub proof fn lemma_tick_keeps_score(w: WorldView, frame: Frame, events: Seq<CollisionEvent>)
    ensures
        w.stage_removal(frame, events).score == w.score,
        w.stage_removal(frame, events).kills == w.kills,
        w.ticked(frame, events).score == WorldView::bounty(
            w.score,
            w.stage_removal(frame, events).enemies,
        ),
        w.ticked(frame, events).kills == WorldView::tally(
            w.kills,
            w.stage_removal(frame, events).enemies,
        ),
        w.ticked(frame, events).score.score >= w.score.score,
        w.ticked(frame, events).kills.kills >= w.kills.kills,
{
    reveal(WorldView::stage_intent);
    reveal(WorldView::stage_change);
    reveal(WorldView::stage_contact);
    reveal(WorldView::stage_removal);
    reveal(WorldView::ticked);
    let w1 = w.synced(frame.player_position);
    let w2 = w1.dash_triggered(frame.dt, frame.input.dash);
    let w3 = w2.hook_triggered(frame.input.hook);
    let w4 = w3.strike_triggered(frame.dt, frame.input.attack, frame.cursor.0);
    let w5 = w4.player_moved(frame.input.move_direction);
    let w6 = w5.change_applied(frame.cursor.0);
    let w7 = w6.hook_advanced(frame.dt);
    let w8 = w7.archer_spawned(frame.dt, frame.archer_heading);
    let w9 = w8.bat_spawned(frame.dt, frame.bat_heading);
    let w10 = w9.enemies_acted(frame.dt);
    let w11 = w10.projectiles_spawned();
    let w12 = w11.projectiles_moved(frame.dt);
    let w13 = w12.collided(events);
    let w14 = w13.despawned(frame.dt);
    lemma_systems_keep_score(w, frame, events);
    lemma_systems_keep_score(w1, frame, events);
    lemma_systems_keep_score(w2, frame, events);
    lemma_systems_keep_score(w3, frame, events);
    lemma_systems_keep_score(w4, frame, events);
    lemma_systems_keep_score(w5, frame, events);
    lemma_systems_keep_score(w6, frame, events);
    lemma_systems_keep_score(w7, frame, events);
    lemma_systems_keep_score(w8, frame, events);
    lemma_systems_keep_score(w9, frame, events);
    lemma_systems_keep_score(w10, frame, events);
    lemma_systems_keep_score(w11, frame, events);
    lemma_systems_keep_score(w12, frame, events);
    lemma_systems_keep_score(w14, frame, events);
    assert(w13 == w.stage_removal(frame, events));
    assert(w14.score == WorldView::bounty(w.score, w13.enemies)) by {
        reveal(WorldView::despawned);
    }
    assert(w14.kills == WorldView::tally(w.kills, w13.enemies)) by {
        reveal(WorldView::despawned);
    }
    lemma_bounty_grows(w.score, w.kills, w13.enemies);
}

/// An enemy that is defeated is defeated for one of the four awards.
pub open spec fn defeated_once(before: Enemy, after: Enemy) -> bool {
    ||| after == before.defeated(STRIKE_SCORE)
    ||| after == before.defeated(crate::mapper::REFLECTION_SCORE)
    ||| after == before.defeated(DASH_SCORE)
    ||| after == before.defeated(DASH_LANDING_SCORE)
}

/// Whatever overlaps a tick reports, each enemy is brought down at most
/// once: it leaves the rules as it entered them, or disabled with the
/// award of one rule. An enemy that entered disabled leaves unchanged.
pub proof fn lemma_collisions_defeat_once(w: WorldView, events: Seq<CollisionEvent>)
    ensures
        w.enemies_after(events).len() == w.enemies.len(),
        forall|i: int|
            0 <= i < w.enemies.len() ==> {
                let after = #[trigger] w.enemies_after(events)[i];
                &&& (w.enemies[i].disabled ==> after == w.enemies[i])
                &&& (after == w.enemies[i] || defeated_once(w.enemies[i], after))
                &&& (w.enemies[i].disabled ==> after.disabled)
            },
{
    let struck = hits(w.enemies, w.strikes, STRIKE_SCORE, events);
    let pierced = volleys(Volley { enemies: struck, reflections: w.reflections }, events);
    let run_down = hits(pierced.enemies, w.dash_hitboxes(), DASH_SCORE, events);
    let last = hits(run_down, w.dash_landings, DASH_LANDING_SCORE, events);
    crate::mapper::lemma_hits_once(w.enemies, w.strikes, STRIKE_SCORE, events);
    crate::mapper::lemma_volleys_once(
        Volley { enemies: struck, reflections: w.reflections },
        events,
    );
    crate::mapper::lemma_hits_once(pierced.enemies, w.dash_hitboxes(), DASH_SCORE, events);
    crate::mapper::lemma_hits_once(run_down, w.dash_landings, DASH_LANDING_SCORE, events);
    assert forall|i: int| 0 <= i < w.enemies.len() implies {
        let after = #[trigger] w.enemies_after(events)[i];
        &&& (w.enemies[i].disabled ==> after == w.enemies[i])
        &&& (after == w.enemies[i] || defeated_once(w.enemies[i], after))
        &&& (w.enemies[i].disabled ==> after.disabled)
    } by {
        let e0 = w.enemies[i];
        let e1 = struck[i];
        let e2 = pierced.enemies[i];
        let e3 = run_down[i];
        let e4 = last[i];
        assert(e1 == e0 || e1 == e0.defeated(STRIKE_SCORE));
        assert(e2 == e1 || e2 == e1.defeated(crate::mapper::REFLECTION_SCORE));
        assert(e3 == e2 || e3 == e2.defeated(DASH_SCORE));
        assert(e4 == e3 || e4 == e3.defeated(DASH_LANDING_SCORE));
    }
}

/// The overlaps of a tick leave the number of enemies alone, disable
/// none that the five rules have not disabled, and once an enemy is
/// disabled it stays so, with the score it had.
pub proof fn lemma_collided_keeps_disabled(w: WorldView, events: Seq<CollisionEvent>)
    ensures
        w.collided(events).enemies.len() == w.enemies.len(),
        forall|i: int|
            0 <= i < w.enemies.len() ==> {
                let after = #[trigger] w.collided(events).enemies[i];
                &&& after.disabled == w.enemies_after(events)[i].disabled
                &&& after.score == w.enemies_after(events)[i].score
                &&& (w.enemies[i].disabled ==> after.disabled && after.score
                    == w.enemies[i].score)
            },
{
    reveal(WorldView::collided);
    lemma_collisions_defeat_once(w, events);
    if let Some(p) = w.player {
        let hurt = Player { disabled: p.disabled || w.player_hurt(events), ..p };
        crate::mapper::lemma_catches(
            Catch { player: hurt, enemies: w.enemies_after(events) },
            w.hook_hitbox(),
            events,
        );
    }
}

/// No system makes the player leave its state machine: each keeps the
/// player's state or takes one of the defined transitions. And none
/// brings a defeated player back.
pub proof fn lemma_systems_step(
    w: WorldView,
    p: Player,
    frame: Frame,
    events: Seq<CollisionEvent>,
)
    requires
        w.player == Some(p),
    ensures
        player_is(
            w.synced(frame.player_position),
            |q: Player| q.state == p.state && q.disabled == p.disabled,
        ),
        player_is(
            w.dash_triggered(frame.dt, frame.input.dash),
            |q: Player| p.state.step(q.state) && q.disabled == p.disabled,
        ),
        player_is(
            w.hook_triggered(frame.input.hook),
            |q: Player| p.state.step(q.state) && q.disabled == p.disabled,
        ),
        w.strike_triggered(frame.dt, frame.input.attack, frame.cursor.0).player == w.player,
        player_is(
            w.player_moved(frame.input.move_direction),
            |q: Player| p.state.step(q.state) && q.disabled == p.disabled,
        ),
        player_is(
            w.change_applied(frame.cursor.0),
            |q: Player| q.state == p.state && q.disabled == p.disabled,
        ),
        w.hook_advanced(frame.dt).player == w.player,
        w.archer_spawned(frame.dt, frame.archer_heading).player == w.player,
        w.bat_spawned(frame.dt, frame.bat_heading).player == w.player,
        w.enemies_acted(frame.dt).player == w.player,
        w.projectiles_spawned().player == w.player,
        w.projectiles_moved(frame.dt).player == w.player,
        player_is(
            w.collided(events),
            |q: Player| p.state.step(q.state) && (p.disabled ==> q.disabled),
        ),
        w.despawned(frame.dt).player == w.player,
        player_is(
            w.settled(frame.dt),
            |q: Player| p.state.step(q.state) && q.disabled == p.disabled,
        ),
{
    reveal(WorldView::synced);
    reveal(WorldView::dash_triggered);
    reveal(WorldView::hook_triggered);
    reveal(WorldView::strike_triggered);
    reveal(WorldView::player_moved);
    reveal(WorldView::change_applied);
    reveal(WorldView::hook_advanced);
    reveal(WorldView::archer_spawned);
    reveal(WorldView::bat_spawned);
    reveal(WorldView::enemies_acted);
    reveal(WorldView::projectiles_spawned);
    reveal(WorldView::projectiles_moved);
    reveal(WorldView::despawned);
    reveal(WorldView::settled);
    assert(player_is(
        w.collided(events),
        |q: Player| p.state.step(q.state) && (p.disabled ==> q.disabled),
    )) by {
        reveal(WorldView::collided);
        let hurt = Player { disabled: p.disabled || w.player_hurt(events), ..p };
        crate::mapper::lemma_catches(
            Catch { player: hurt, enemies: w.enemies_after(events) },
            w.hook_hitbox(),
            events,
        );
    }
}

/// What a tick removes is gone for good: no enemy and no arrow that is
/// left in the world after a tick is marked for removal, so each is
/// paid out and reported in one tick only.
pub proof fn lemma_tick_removes_disabled(w: WorldView, frame: Frame, events: Seq<CollisionEvent>)
    ensures
        forall|i: int|
            0 <= i < w.ticked(frame, events).enemies.len() ==> !(#[trigger] w.ticked(
                frame,
                events,
            ).enemies[i]).disabled,
        forall|i: int|
            0 <= i < w.ticked(frame, events).projectiles.len() ==> !(#[trigger] w.ticked(
                frame,
                events,
            ).projectiles[i]).disabled,
{
    reveal(WorldView::ticked);
    reveal(WorldView::despawned);
    reveal(WorldView::settled);
    let at_removal = w.stage_removal(frame, events);
    crate::collision::lemma_in_play(at_removal.enemies);
    crate::collision::lemma_in_play(at_removal.projectiles);
}

/// A disabled enemy counts among the fallen, and what it is worth
/// counts in the purse.
pub proof fn lemma_fallen_counts(enemies: Seq<Enemy>, i: int)
    requires
        0 <= i < enemies.len(),
        enemies[i].disabled,
    ensures
        fallen(enemies) >= 1,
        purse(enemies) >= enemies[i].score,
    decreases enemies.len(),
{
    if i < enemies.len() - 1 {
        lemma_fallen_counts(enemies.drop_last(), i);
    }
}

/// An enemy that starts to overlap a strike is brought down, paid out
/// and removed in the same tick: after the overlaps it is disabled and
/// worth [`STRIKE_SCORE`], and removal then counts it as a kill, adds
/// what it is worth to the score, and leaves no disabled enemy behind.
pub proof fn lemma_strike_scores(
    w: WorldView,
    events: Seq<CollisionEvent>,
    dt: u64,
    k: int,
    i: int,
)
    requires
        0 <= k < events.len(),
        events[k].is_start(),
        crate::collision::party(w.strikes, events[k]) is Some,
        crate::collision::party(w.enemies, events[k]) == Some(i),
        0 <= i < w.enemies.len() ==> !w.enemies[i].disabled,
    ensures
        0 <= i < w.enemies.len(),
        w.collided(events).enemies.len() == w.enemies.len(),
        w.collided(events).enemies[i].disabled,
        w.collided(events).enemies[i].score == STRIKE_SCORE,
        fallen(w.collided(events).enemies) >= 1,
        purse(w.collided(events).enemies) >= STRIKE_SCORE,
        w.collided(events).despawned(dt).kills.kills == if w.kills.kills + fallen(
            w.collided(events).enemies,
        ) > u32::MAX {
            u32::MAX as int
        } else {
            w.kills.kills + fallen(w.collided(events).enemies)
        },
        w.collided(events).despawned(dt).score.score == if w.score.score + purse(
            w.collided(events).enemies,
        ) > u32::MAX {
            u32::MAX as int
        } else {
            w.score.score + purse(w.collided(events).enemies)
        },
        forall|j: int|
            0 <= j < w.collided(events).despawned(dt).enemies.len() ==> !(
            #[trigger] w.collided(events).despawned(dt).enemies[j]).disabled,
{
    crate::mapper::lemma_touch_defeats(w.enemies, w.strikes, STRIKE_SCORE, events, k, i);
    let struck = hits(w.enemies, w.strikes, STRIKE_SCORE, events);
    let pierced = volleys(Volley { enemies: struck, reflections: w.reflections }, events);
    let run_down = hits(pierced.enemies, w.dash_hitboxes(), DASH_SCORE, events);
    crate::mapper::lemma_hits_once(w.enemies, w.strikes, STRIKE_SCORE, events);
    crate::mapper::lemma_volleys_once(
        Volley { enemies: struck, reflections: w.reflections },
        events,
    );
    crate::mapper::lemma_hits_once(pierced.enemies, w.dash_hitboxes(), DASH_SCORE, events);
    crate::mapper::lemma_hits_once(run_down, w.dash_landings, DASH_LANDING_SCORE, events);
    assert(struck[i].disabled && struck[i].score == STRIKE_SCORE);
    assert(pierced.enemies[i] == struck[i]);
    assert(run_down[i] == struck[i]);
    assert(w.enemies_after(events)[i] == struck[i]);
    lemma_collided_keeps_disabled(w, events);
    let c = w.collided(events);
    lemma_fallen_counts(c.enemies, i);
    lemma_systems_keep_score(w, Frame {
        dt,
        input: PlayerInput::idle(),
        cursor: MouseWorldCoords(Vec2::zero()),
        player_position: Vec2::zero(),
        archer_heading: Vec2::zero(),
        bat_heading: Vec2::zero(),
    }, events);
    lemma_bounty_exact(w.score, w.kills, c.enemies);
    assert(c.despawned(dt).enemies == in_play(c.enemies)
        && c.despawned(dt).score == WorldView::bounty(c.score, c.enemies)
        && c.despawned(dt).kills == WorldView::tally(c.kills, c.enemies)) by {
        reveal(WorldView::despawned);
    }
    crate::collision::lemma_in_play(c.enemies);
}

} // verus!
