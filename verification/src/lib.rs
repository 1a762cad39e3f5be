//! A snake game on a square grid whose edges wrap around.
//!
//! The library holds the rules of the game: where a step leads on the grid,
//! how the snake moves, turns and grows, which cell may hold the reward, and
//! how one tick changes the world. It draws and paints nothing: a driver
//! steers the snake, steps the world, and offers cells for the reward.

pub mod grid;
pub mod lemmas;
pub mod snake;
pub mod world;

pub use crate::grid::Direction;
pub use crate::snake::Snake;
pub use crate::snake::SnakeCell;
pub use crate::world::GameStates;
pub use crate::world::World;
