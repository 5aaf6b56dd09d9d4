//! A turn-based chase on a tile grid: Theseus runs for the goal while the
//! Minotaur closes in by a greedy rule.
pub mod board;
pub mod command;
pub mod game;
pub mod laws;
pub mod render;

pub use board::BoardError;
pub use command::{Command, command_of_word, input};
pub use game::{Game, GameStatus, Grid};
