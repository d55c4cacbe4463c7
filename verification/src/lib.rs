//! Core simulation of a single-screen arcade shooter: a dual state machine
//! (game state and level state), an entity lifecycle with tolerant despawn,
//! axis-aligned collision checks, periodic enemy fire, and a pairwise
//! separation solver for enemy ships.
//!
//! Positions are integers in thousandths of a world unit, so one world unit
//! is 1000 coordinate steps and per-frame motion `speed * dt_ms` is exact.

pub mod geom;
pub mod world;
pub mod game;
pub mod levels;
pub mod player;
pub mod lasers_player;
pub mod lasers_enemies;
pub mod tick;
