//! Deterministic fixed-step physics core for a 2D space-flight game.
//!
//! A steerable ship moves among circular planets under Newtonian gravity.
//! The library owns the numerical kernel (gravity acceleration from point
//! masses), the fixed-step simulator (gravity, velocity integration,
//! collision detection and resolution), the trajectory predictor, the
//! time-scale scheduler, the fuel/thrust accounting and the level parser.
//!
//! All world quantities are fixed-point numbers: a value is an `i64` holding
//! `value * 65536`, kept within `[-FX_LIM, FX_LIM]` by saturation. Every
//! operation's result is stated exactly in its contract, so the simulator
//! and the predictor provably share one arithmetic.

pub mod collision;
pub mod fixed;
pub mod gravity;
pub mod input;
pub mod level;
pub mod level_state;
pub mod planet;
pub mod prediction;
pub mod scene;
pub mod ship;
pub mod simulation;
pub mod text;
pub mod timescale;
pub mod vec2;
