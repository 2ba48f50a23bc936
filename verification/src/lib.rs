//! Simulation core of a side-scrolling runner game.
//!
//! The library holds the verified game logic: axis-aligned rectangle
//! geometry, the player-character state machine, procedural obstacle
//! segment generation, the game-level state machine and the fixed-timestep
//! accumulator.  Rendering, asset loading, audio and input capture are
//! collaborators outside the library; the logic describes the work it wants
//! done (draw commands, sounds, overlay changes) as plain values.

pub mod game;
pub mod game_loop;
pub mod geometry;
pub mod key_state;
pub mod obstacle;
pub mod red_hat_boy;
pub mod render;
mod rng;
pub mod segment;
pub mod sheet;
pub mod sound;
pub mod text;
pub mod ui;
pub mod walk;
