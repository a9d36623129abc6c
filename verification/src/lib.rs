//! A terminal Snake game engine: the board, the snake, the food and the
//! transition that advances the game by one tick, each with its contract.

pub mod geometry;
pub mod snake;
pub mod food;
pub mod input;
pub mod state;
pub mod game;
