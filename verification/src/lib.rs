//! A deterministic, frame-stepped falling-block puzzle engine.
//!
//! The engine advances a discrete simulation one frame per `update` call:
//! piece spawning, gravity, player-controlled translation and rotation with
//! wall kicks, lock delay, line clearing, hold, T-Spin recognition and
//! top-out detection.  Identical inputs from an identical initial state
//! yield identical outputs, which makes the engine suitable for replays,
//! headless testing and bots.

pub mod common;
pub mod game;
pub mod grid;
pub mod helper;
pub mod input_counter;
pub mod renderer;
pub mod tetro;
