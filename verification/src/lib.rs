//! A real-time multiplayer snake simulation engine.
//!
//! Multiple independently controlled snakes move simultaneously on a fixed
//! grid, compete for cells, eat food, grow, and die according to
//! deterministic collision rules.  Every tick resolves all moves in two
//! phases from the pre-tick state, so the outcome does not depend on the
//! order in which players are processed.

pub mod base;
pub mod events;
pub mod game;
pub mod grid;
pub mod player;
pub mod snake;

pub use base::Direction;
pub use base::PlayerIndex;
pub use base::Vector2i;
pub use game::Game;
