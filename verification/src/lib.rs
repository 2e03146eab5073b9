//! Conway's Game of Life on a fixed-size grid, with optional toroidal wrap,
//! a recorded history of generations, a colored text rendering and an
//! animated GIF export.

pub mod animation;
pub mod error;
pub mod game;
pub mod grid;
pub mod laws;
pub mod patterns;
pub mod render;

pub use error::LifeError;
pub use game::{Game, GameView};
pub use grid::{Grid, GridView};
