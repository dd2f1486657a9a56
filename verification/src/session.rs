//! A session: loading, playing, game over, restart, and the world that is
//! played in.

use vstd::prelude::*;
use crate::collision::CollisionEvent;
use crate::cooldown::Cooldown;
use crate::cooldown::CooldownMode;
use crate::input::PlayerInput;
use crate::world::Clips;
use crate::world::Frame;
use crate::world::Report;
use crate::world::World;
use crate::world::WorldView;
use crate::world::lemma_tick_keeps_score;

verus! {

/// How long a restart takes, in microseconds.
pub const RESTART_TIME: u64 = 200_000;

/// The phases of the game.
#[derive(Clone, Copy, Debug, PartialEq, Eq, Hash, Structural)]
pub enum GameState {
    AssetLoading,
    Gaming,
    GameOver,
    Restart,
}

impl Default for GameState {
    fn default() -> (s: GameState)
        ensures
            s == GameState::AssetLoading,
    {
        GameState::AssetLoading
    }
}

/// The screens of the game-over phase.
#[derive(Clone, Copy, Debug, PartialEq, Eq, Hash, Structural)]
pub enum GameOverState {
    /// The player enters a name.
    GameOver,
    /// The score is being sent and the leaderboard fetched.
    Loading,
    /// The leaderboard is shown.
    Leaderboard,
}

impl Default for GameOverState {
    fn default() -> (s: GameOverState)
        ensures
            s == GameOverState::GameOver,
    {
        GameOverState::GameOver
    }
}

/// The time played in this session, in microseconds.
#[derive(Clone, Copy, Debug, PartialEq, Eq, Structural)]
pub struct SpeedTimer {
    pub elapsed: u64,
}

impl SpeedTimer {
    /// The time played after `dt` more microseconds, stopping at `u64::MAX`.
    pub open spec fn ticked(self, dt: u64) -> SpeedTimer {
        SpeedTimer {
            elapsed: if self.elapsed + dt > u64::MAX {
                u64::MAX
            } else {
                (self.elapsed + dt) as u64
            },
        }
    }

    /// Counts `dt` more microseconds.
    pub fn tick(&mut self, dt: u64)
        ensures
            *final(self) == old(self).ticked(dt),
    {
        self.elapsed = self.elapsed.saturating_add(dt);
    }

    /// The time played in whole seconds.
    pub fn seconds(&self) -> (s: u64)
        ensures
            s == self.elapsed / 1_000_000,
    {
        self.elapsed / 1_000_000
    }
}

impl Default for SpeedTimer {
    fn default() -> (t: SpeedTimer)
        ensures
            t.elapsed == 0,
    {
        SpeedTimer { elapsed: 0 }
    }
}

/// A session of the game.
pub struct Session {
    pub state: GameState,
    pub game_over: GameOverState,
    pub restart_timer: Cooldown,
    pub speed_timer: SpeedTimer,
    pub world: World,
}

/// The mathematical value of a [`Session`].
pub struct SessionView {
    pub state: GameState,
    pub game_over: GameOverState,
    pub restart_timer: Cooldown,
    pub speed_timer: SpeedTimer,
    pub world: WorldView,
}

impl View for Session {
    type V = SessionView;

    open spec fn view(&self) -> SessionView {
        SessionView {
            state: self.state,
            game_over: self.game_over,
            restart_timer: self.restart_timer,
            speed_timer: self.speed_timer,
            world: self.world@,
        }
    }
}

impl SessionView {
    /// Whether the input asks to leave the game-over phase: escape on
    /// every screen, and the restart key as well on the leaderboard.
    pub open spec fn restart_asked(self, input: PlayerInput) -> bool {
        match self.game_over {
            GameOverState::GameOver => input.escape,
            GameOverState::Loading => input.escape,
            GameOverState::Leaderboard => input.restart || input.escape,
        }
    }

    /// Whether the text field for the name is shown.
    pub open spec fn field_shown(self) -> bool {
        self.state == GameState::GameOver && self.game_over == GameOverState::GameOver
    }

    /// Whether an answer of the leaderboard service is still wanted.
    pub open spec fn awaits_board(self) -> bool {
        self.state == GameState::GameOver && self.game_over == GameOverState::Loading
    }

    /// The session as play is entered: a new player stands in the world.
    pub open spec fn playing(self) -> SessionView {
        SessionView { state: GameState::Gaming, world: self.world.player_spawned(), ..self }
    }

    /// The session as the game-over phase is entered: the player is gone
    /// and the first screen is shown.
    pub open spec fn over(self) -> SessionView {
        SessionView {
            state: GameState::GameOver,
            game_over: GameOverState::GameOver,
            world: self.world.player_despawned(),
            ..self
        }
    }

    /// The session as the restart is entered: the world is emptied, and
    /// score, kill count and time played start at zero.
    pub open spec fn restarting(self) -> SessionView {
        SessionView {
            state: GameState::Restart,
            speed_timer: SpeedTimer { elapsed: 0 },
            world: self.world.cleared(),
            ..self
        }
    }

    /// The session after its assets have arrived.
    pub open spec fn loaded(self) -> SessionView {
        if self.state == GameState::AssetLoading {
            self.playing()
        } else {
            self
        }
    }

    /// The session after one tick.
    pub open spec fn ticked(self, frame: Frame, events: Seq<CollisionEvent>) -> SessionView {
        match self.state {
            GameState::AssetLoading => self,
            GameState::Gaming => {
                let played = SessionView {
                    world: self.world.ticked(frame, events),
                    speed_timer: self.speed_timer.ticked(frame.dt),
                    ..self
                };
                if played.world.player matches Some(p) && p.disabled {
                    played.over()
                } else {
                    played
                }
            },
            GameState::GameOver => if self.restart_asked(frame.input) {
                self.restarting()
            } else {
                self
            },
            GameState::Restart => {
                let waited = SessionView {
                    restart_timer: self.restart_timer.ticked(frame.dt),
                    ..self
                };
                if waited.restart_timer.just_finished {
                    waited.playing()
                } else {
                    waited
                }
            },
        }
    }

    /// The session after a name has been submitted.
    pub open spec fn submitted(self) -> SessionView {
        if self.field_shown() {
            SessionView { game_over: GameOverState::Loading, ..self }
        } else {
            self
        }
    }

    /// The session after the leaderboard has arrived.
    pub open spec fn fetched(self) -> SessionView {
        if self.awaits_board() {
            SessionView { game_over: GameOverState::Leaderboard, ..self }
        } else {
            self
        }
    }
}

impl Session {
    /// A session that waits for its assets.
    pub fn new(clips: Clips) -> (s: Session)
        ensures
            s@ == (SessionView {
                state: GameState::AssetLoading,
                game_over: GameOverState::GameOver,
                restart_timer: Cooldown {
                    elapsed: 0,
                    duration: RESTART_TIME,
                    mode: CooldownMode::Repeating,
                    just_finished: false,
                },
                speed_timer: SpeedTimer { elapsed: 0 },
                world: WorldView::empty(clips),
            }),
    {
        Session {
            state: GameState::AssetLoading,
            game_over: GameOverState::GameOver,
            restart_timer: Cooldown::new(RESTART_TIME, CooldownMode::Repeating),
            speed_timer: SpeedTimer { elapsed: 0 },
            world: World::new(clips),
        }
    }

    /// The assets are there: play begins.
    pub fn assets_loaded(&mut self)
        ensures
            final(self)@ == old(self)@.loaded(),
    {
        if self.state == GameState::AssetLoading {
            self.state = GameState::Gaming;
            self.world.spawn_player();
        }
    }

    /// Whether the input asks to leave the game-over phase.
    pub fn restart(&self, input: PlayerInput) -> (asked: bool)
        ensures
            asked == self@.restart_asked(input),
    {
        match self.game_over {
            GameOverState::GameOver => input.escape,
            GameOverState::Loading => input.escape,
            GameOverState::Leaderboard => input.restart || input.escape,
        }
    }

    /// Forgets the score, the kills and the time played of the session
    /// that is over, and empties the world.
    pub fn reset_resources(&mut self)
        ensures
            final(self)@ == (SessionView {
                speed_timer: SpeedTimer { elapsed: 0 },
                world: old(self)@.world.cleared(),
                ..old(self)@
            }),
    {
        self.speed_timer = SpeedTimer { elapsed: 0 };
        self.world.clear();
    }

    /// One tick of the session. While the game is played the world
    /// ticks, and the defeat of the player ends the play. In the
    /// game-over phase the session waits for the input that restarts it;
    /// the restart empties the world and, after [`RESTART_TIME`], play
    /// begins anew. The report is that of the world, in a tick in which
    /// the world has run.
    pub fn tick(&mut self, frame: Frame, events: &Vec<CollisionEvent>) -> (report: Option<Report>)
        ensures
            final(self)@ == old(self)@.ticked(frame, events@),
            report is Some <==> old(self).state == GameState::Gaming,
            report matches Some(r) ==> {
                let w = old(self)@.world;
                &&& r.strike == w.stage_intent(frame).strike_request(
                    frame.dt,
                    frame.input.attack,
                    frame.cursor.0,
                )
                &&& r.trail@ == w.stage_change(frame).change_trail()
                &&& r.reflections@ == w.stage_contact(frame).reflection_requests(events@)
                &&& r.despawned@ == WorldView::obituaries(w.stage_removal(frame, events@).enemies)
                &&& r.change == w.stage_removal(frame, events@).despawned(frame.dt).announcement()
                &&& r.dash_ready == final(self).world.dash_timer.just_finished
                &&& r.game_over == (final(self).state == GameState::GameOver)
            },
    {
        match self.state {
            GameState::AssetLoading => None,
            GameState::Gaming => {
                let report = self.world.tick(frame, events);
                self.speed_timer.tick(frame.dt);
                if report.game_over {
                    self.state = GameState::GameOver;
                    self.game_over = GameOverState::GameOver;
                    self.world.despawn_player();
                }
                Some(report)
            },
            GameState::GameOver => {
                if self.restart(frame.input) {
                    self.state = GameState::Restart;
                    self.reset_resources();
                }
                None
            },
            GameState::Restart => {
                self.restart_timer.tick(frame.dt);
                if self.restart_timer.just_finished() {
                    self.state = GameState::Gaming;
                    self.world.spawn_player();
                }
                None
            },
        }
    }

    /// Whether the text field for the name is shown: on the first
    /// game-over screen only.
    pub fn text_field_shown(&self) -> (shown: bool)
        ensures
            shown == self@.field_shown(),
    {
        self.state == GameState::GameOver && self.game_over == GameOverState::GameOver
    }

    /// Whether an answer of the leaderboard service is still wanted:
    /// only while the loading screen is shown. An answer that comes
    /// later is to be dropped.
    pub fn awaits_leaderboard(&self) -> (wanted: bool)
        ensures
            wanted == self@.awaits_board(),
    {
        self.state == GameState::GameOver && self.game_over == GameOverState::Loading
    }

    /// A name has been submitted on the first game-over screen: the
    /// loading screen follows.
    pub fn trigger_loading(&mut self)
        ensures
            final(self)@ == old(self)@.submitted(),
    {
        if self.state == GameState::GameOver && self.game_over == GameOverState::GameOver {
            self.game_over = GameOverState::Loading;
        }
    }

    /// The leaderboard has arrived while the loading screen was shown:
    /// the leaderboard follows.
    pub fn trigger_leaderboard(&mut self)
        ensures
            final(self)@ == old(self)@.fetched(),
    {
        if self.state == GameState::GameOver && self.game_over == GameOverState::Loading {
            self.game_over = GameOverState::Leaderboard;
        }
    }
}

/// Score and kill count never fall in a tick, except in the tick that
/// enters the restart, which sets both to zero; and no other tick sets
/// them back.
pub proof fn lemma_score_monotonic(s: SessionView, frame: Frame, events: Seq<CollisionEvent>)
    ensures
        ({
            let next = s.ticked(frame, events);
            let entering = next.state == GameState::Restart && s.state != GameState::Restart;
            &&& entering ==> next.world.score.score == 0 && next.world.kills.kills == 0
            &&& !entering ==> next.world.score.score >= s.world.score.score
                && next.world.kills.kills >= s.world.kills.kills
            &&& entering <==> s.state == GameState::GameOver && s.restart_asked(frame.input)
        }),
{
    lemma_tick_keeps_score(s.world, frame, events);
}

/// Submitting a name and receiving the leaderboard change neither the
/// phase nor the score.
pub proof fn lemma_screens_keep_score(s: SessionView)
    ensures
        s.submitted().world == s.world,
        s.fetched().world == s.world,
        s.submitted().state == s.state,
        s.fetched().state == s.state,
        s.loaded().world.score == s.world.score,
        s.loaded().world.kills == s.world.kills,
{
}

/// Entering the restart flushes the world: no enemy, arrow, strike,
/// shockwave or hook is left, and the time played starts at zero.
pub proof fn lemma_restart_flushes(s: SessionView, frame: Frame, events: Seq<CollisionEvent>)
    requires
        s.state == GameState::GameOver,
        s.restart_asked(frame.input),
    ensures
        ({
            let next = s.ticked(frame, events);
            &&& next.state == GameState::Restart
            &&& next.world.enemies.len() == 0
            &&& next.world.projectiles.len() == 0
            &&& next.world.reflections.len() == 0
            &&& next.world.strikes.len() == 0
            &&& next.world.dash_landings.len() == 0
            &&& next.world.hook is None
            &&& next.speed_timer.elapsed == 0
        }),
{
}

} // verus!
