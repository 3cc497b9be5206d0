pub mod game;
pub mod grid;
mod random;

pub use game::{Game, SnakeError, TickEvents, SPAWN_X, SPAWN_Y};
pub use grid::{Direction, Position, GRID_HEIGHT, GRID_WIDTH};
