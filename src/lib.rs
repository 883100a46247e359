//! A deterministic Breakout-style simulation: a ball bouncing in a fixed
//! arena, an oscillating paddle, and a grid of destructible blocks.

pub mod entities;
pub mod collision;
pub mod game;
pub mod service;
