//! The board: the state of one game, changed in place by moves and by
//! taking them back.

use vstd::prelude::*;
use crate::laws::{lemma_apply_keeps_wf, lemma_undo_keeps_wf};
use crate::model::{line_through, status_of, three_alike, winner_of, BoardView};
use crate::player::{Difficulty, MoveError, Player, State};

verus! {

/// The state of one game.
#[derive(Debug, Eq, PartialEq, Clone)]
pub struct Board {
    matrix: Vec<Player>,
    moves: Vec<usize>,
    status: State,
    turn: Player,
    winner: Player,
    difficulty: Difficulty,
}

impl View for Board {
    type V = BoardView;

    closed spec fn view(&self) -> BoardView {
        BoardView {
            cells: self.matrix@,
            history: self.moves@,
            status: self.status,
            turn: self.turn,
            winner: self.winner,
            difficulty: self.difficulty,
        }
    }
}

impl Board {
    /// The board is one that a game can reach.
    pub open spec fn wf(&self) -> bool {
        self@.wf()
    }

    /// A board without moves, on which `start_player` moves first.
    pub fn new(start_player: Player, difficulty: Difficulty) -> (board: Board)
        requires
            start_player != Player::EMPTY,
        ensures
            board.wf(),
            board@ == BoardView::fresh(start_player, difficulty),
    {
        let board = Board {
            matrix: vec![
                Player::EMPTY, Player::EMPTY, Player::EMPTY,
                Player::EMPTY, Player::EMPTY, Player::EMPTY,
                Player::EMPTY, Player::EMPTY, Player::EMPTY
            ],
            moves: vec![],
            status: State::INPROGRESS,
            turn: start_player,
            winner: Player::EMPTY,
            difficulty,
        };
        proof {
            let fresh = BoardView::fresh(start_player, difficulty);
            assert(board@.cells =~= fresh.cells);
            assert(board@.history =~= fresh.history);
        }
        board
    }

    /// The side that moves next.
    pub fn get_current_turn(&self) -> (turn: Player)
        ensures
            turn == self@.turn,
    {
        self.turn
    }

    /// How far the game has come.
    pub fn get_board_state(&self) -> (status: State)
        ensures
            status == self@.status,
    {
        self.status
    }

    /// The side that completed a line, `EMPTY` while nobody has.
    pub fn get_winner(&self) -> (winner: Player)
        ensures
            winner == self@.winner,
    {
        self.winner
    }

    /// The policy by which the engine selects its move.
    pub fn get_difficulty(&self) -> (difficulty: Difficulty)
        ensures
            difficulty == self@.difficulty,
    {
        self.difficulty
    }

    /// The occupant of the cell at `position`.
    pub fn cell(&self, position: usize) -> (occupant: Player)
        requires
            self.wf(),
            position < 9,
        ensures
            occupant == self@.cells[position as int],
    {
        self.matrix[position]
    }

    /// The number of moves made so far.
    pub fn move_count(&self) -> (count: usize)
        ensures
            count == self@.history.len(),
    {
        self.moves.len()
    }

    /// The move made as the `index`-th, counted from zero.
    pub fn move_at(&self, index: usize) -> (position: usize)
        requires
            index < self@.history.len(),
        ensures
            position == self@.history[index as int],
    {
        self.moves[index]
    }

    /// Whether `position` has been played.
    fn has_played(&self, position: usize) -> (played: bool)
        ensures
            played == self@.history.contains(position),
    {
        let mut index: usize = 0;
        while index < self.moves.len()
            invariant
                index <= self.moves.len(),
                forall|k: int| 0 <= k < index ==> self.moves@[k] != position,
            decreases self.moves.len() - index,
        {
            if self.moves[index] == position {
                return true;
            }
            index += 1;
        }
        false
    }

    /// Plays `move_position` for the side to move. A position beyond the
    /// ninth cell, or one played before, is refused and leaves the board
    /// as it was.
    pub fn make_move(&mut self, move_position: usize) -> (outcome: Result<(), MoveError>)
        requires
            old(self).wf(),
        ensures
            final(self).wf(),
            outcome == old(self)@.verdict(move_position),
            final(self)@ == old(self)@.after_request(move_position),
            outcome.is_err() ==> final(self)@ == old(self)@,
            outcome.is_ok() ==> final(self)@.cells[move_position as int] == old(self)@.turn,
            outcome.is_ok() ==> final(self)@.turn == old(self)@.turn.other(),
    {
        if move_position > 8 {
            Err(MoveError::OutOfRange)
        } else if self.has_played(move_position) {
            Err(MoveError::CellOccupied)
        } else {
            proof {
                lemma_apply_keeps_wf(self@, move_position);
            }
            self.matrix[move_position] = self.turn;
            self.moves.push(move_position);
            self.change_turn();
            self.change_board_state();
            Ok(())
        }
    }

    /// Takes back the latest move.
    pub fn undo_move(&mut self)
        requires
            old(self).wf(),
            old(self)@.history.len() > 0,
        ensures
            final(self).wf(),
            final(self)@ == old(self)@.undo(),
    {
        proof {
            lemma_undo_keeps_wf(self@);
        }
        let move_position = self.moves.pop().unwrap();
        self.matrix[move_position] = Player::EMPTY;
        self.change_turn();
        self.change_board_state();
    }

    /// Hands the turn to the other side.
    fn change_turn(&mut self)
        ensures
            final(self)@ == (BoardView { turn: old(self)@.turn.other(), ..old(self)@ }),
    {
        self.turn = self.turn.opponent();
    }

    /// Whether the cells `a`, `b` and `c` are held by one side.
    fn same_side(&self, a: usize, b: usize, c: usize) -> (alike: bool)
        requires
            self@.cells.len() == 9,
            a < 9,
            b < 9,
            c < 9,
        ensures
            alike == three_alike(self@.cells, a as int, b as int, c as int),
    {
        self.matrix[a] != Player::EMPTY && self.matrix[a] == self.matrix[b]
            && self.matrix[b] == self.matrix[c]
    }

    /// Sets status and winner from the cell that changed last: only the
    /// lines through the latest move are looked at.
    fn change_board_state(&mut self)
        requires
            old(self)@.cells.len() == 9,
            old(self)@.history.len() > 0 ==> old(self)@.history.last() < 9,
        ensures
            final(self)@ == (BoardView {
                status: status_of(old(self)@.cells, old(self)@.history),
                winner: winner_of(old(self)@.cells, old(self)@.history),
                ..old(self)@
            }),
    {
        let len: usize = self.moves.len();
        if len == 0 {
            self.status = State::INPROGRESS;
            self.winner = Player::EMPTY;
            return ;
        }
        let move_position: usize = self.moves[len - 1];

        let row: usize = move_position / 3;
        let col: usize = move_position % 3;

        let row_complete = self.same_side(row * 3, row * 3 + 1, row * 3 + 2);
        let col_complete = self.same_side(col, col + 3, col + 6);
        let on_main_diag = move_position == 0 || move_position == 4 || move_position == 8;
        let main_diag_complete = on_main_diag && self.same_side(0, 4, 8);
        let on_sec_diag = move_position == 2 || move_position == 4 || move_position == 6;
        let sec_diag_complete = on_sec_diag && self.same_side(2, 4, 6);

        if row_complete || col_complete || main_diag_complete || sec_diag_complete {
            self.status = State::RESULTED;
            self.winner = self.matrix[move_position];
        } else if len >= 9 {
            self.status = State::DRAW;
            self.winner = Player::EMPTY;
        } else {
            self.status = State::INPROGRESS;
            self.winner = Player::EMPTY;
        }
    }
}

} // verus!
