//! A small hunt-the-wumpus game: a cave of rooms joined by tunnels, hidden
//! hazards, and a player whose moves and shots are resolved against them.

pub mod cave;
pub mod player;
pub mod prompt;

pub use cave::{Cave, ConfigError, Hazard, Room};
pub use player::Player;
pub use prompt::{Action, ActionError};
