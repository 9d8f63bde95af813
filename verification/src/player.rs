//! The closed sets of values a game is made of: who occupies a cell, how far
//! the game has come, how strong the engine plays, and why a move is refused.

use vstd::prelude::*;

verus! {

/// The occupant of a cell, and the side whose turn it is.
#[allow(non_camel_case_types)]
#[derive(Debug, Clone, Copy, PartialEq, Eq, Structural)]
pub enum Player {
    X,
    O,
    EMPTY,
}

/// How far a game has come.
#[allow(non_camel_case_types)]
#[derive(Debug, Clone, Copy, PartialEq, Eq, Structural)]
pub enum State {
    DRAW,
    RESULTED,
    INPROGRESS,
}

/// The policy by which the engine selects its move.
#[allow(non_camel_case_types)]
#[derive(Debug, Clone, Copy, PartialEq, Eq, Structural)]
pub enum Difficulty {
    EASY,
    MEDIUM,
    DIFFICULT,
}

/// Why a move was refused.
#[derive(Debug, Clone, Copy, PartialEq, Eq, Structural)]
pub enum MoveError {
    /// The position is not one of the nine cells.
    OutOfRange,
    /// The position has been played before.
    CellOccupied,
}

impl Player {
    /// The other side; `EMPTY` has no other side and stays as it is.
    pub open spec fn other(self) -> Player {
        match self {
            Player::X => Player::O,
            Player::O => Player::X,
            Player::EMPTY => Player::EMPTY,
        }
    }

    /// The side that moves after this one.
    pub fn opponent(&self) -> (next: Player)
        ensures
            next == self.other(),
    {
        match self {
            Player::X => Player::O,
            Player::O => Player::X,
            Player::EMPTY => Player::EMPTY,
        }
    }
}

impl MoveError {
    /// The text shown to a player whose move was refused.
    pub open spec fn text(self) -> Seq<char> {
        match self {
            MoveError::OutOfRange => "Illegal Position Supplied. Try Again."@,
            MoveError::CellOccupied => "Position Already Filled. Try Again"@,
        }
    }

    /// The message for this refusal.
    pub fn message(&self) -> (text: String)
        ensures
            text@ == self.text(),
    {
        match self {
            MoveError::OutOfRange => "Illegal Position Supplied. Try Again.".to_string(),
            MoveError::CellOccupied => "Position Already Filled. Try Again".to_string(),
        }
    }
}

} // verus!
