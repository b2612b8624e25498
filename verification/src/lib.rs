//! A snake game engine: a segmented snake moves on a walled grid, eats food to
//! grow and score, and the session ends when it runs into a wall or the player
//! quits. The engine is a tick-driven state machine; drawing and keyboard
//! input are left to the program that embeds it.

pub mod action;
pub mod direction;
pub mod frame;
pub mod game;
pub mod point;
mod random;
pub mod snake;
