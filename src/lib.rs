//! A bounded Conway's Game of Life whose generations are computed in
//! parallel and drawn at sub-pixel resolution: three horizontally adjacent
//! cells light the red, green and blue channels of one screen pixel.

pub mod rules;
pub mod game;
mod parallel;
pub mod laws;

pub use game::GameOfLife;
