//! Events published by the game loop to its consumers.

use vstd::prelude::*;

use crate::grid::Grid;

verus! {

/// The short summary information about a player.
#[derive(Debug, Clone, Copy, PartialEq, Eq, Structural)]
pub struct PlayerSummary {
    pub score: u32,
    pub alive: bool,
}

/// The event that carries one step's grid snapshot and the ordered
/// per-player summaries.
pub struct Update {
    pub grid: Grid,
    pub players_summary: Vec<PlayerSummary>,
}

/// The event that represents the end of the game.
#[derive(Debug, Clone)]
pub struct GameOver {
    pub players_summary: Vec<PlayerSummary>,
}

/// A global game event, as published after each step and once at the end.
pub enum GlobalEvent {
    Update(Update),
    GameOver(GameOver),
}

} // verus!
