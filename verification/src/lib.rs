//! A tic-tac-toe engine: a 3x3 board with move and undo mechanics, terminal
//! state detection, and an opponent that searches the whole game tree.
//!
//! Every executable function carries a contract over the mathematical model
//! in [`model`], and Verus proves the bodies against those contracts.

pub mod player;
pub mod model;
pub mod laws;
pub mod board;
pub mod random;
pub mod search;

pub use board::Board;
pub use model::BoardView;
pub use player::{Difficulty, MoveError, Player, State};
pub use search::{find_available_moves, minimax};
