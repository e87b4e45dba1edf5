//! Core simulation of a small 2D top-down arena game.
//!
//! A single player roams a static background, enemies appear at
//! timer-driven intervals at random ground positions, the player fires
//! projectiles that destroy them, and a score counter increments per
//! kill. All coordinates are fixed-point micro-units (one world unit is
//! 1_000_000 micro-units) and all times are microseconds, so the whole
//! simulation is exact integer arithmetic.

pub mod attack;
pub mod collision;
pub mod components;
pub mod input;
pub mod motion;
pub mod num;
pub mod reaper;
pub mod spawner;
pub mod step;
pub mod world;
