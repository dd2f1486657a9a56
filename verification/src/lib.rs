//! Deterministic combat core of a top-down survival game: cooldown-gated
//! actions, actor state machines, collision outcomes and score accrual.
//!
//! Time is counted in microseconds and space in thousandths of a world
//! unit, so that every rule is an exact function on integers.

pub mod audio;
pub mod collision;
pub mod cooldown;
pub mod dash;
pub mod enemy;
pub mod hook;
pub mod input;
pub mod leaderboard;
pub mod loading;
pub mod map;
pub mod mapper;
pub mod player;
pub mod reflection_projectile;
pub mod score;
pub mod seed;
pub mod session;
pub mod strike;
pub mod text;
pub mod typing;
pub mod vec2;
pub mod world;
