//! The mathematical model of a game: what a board holds, which boards are
//! valid, what a move and its undoing do to one, and what the search computes.

use vstd::prelude::*;
use crate::player::{Difficulty, MoveError, Player, State};

verus! {

/// What a board holds, as plain mathematical values.
pub struct BoardView {
    /// The nine cells, row by row.
    pub cells: Seq<Player>,
    /// The positions played so far, oldest first.
    pub history: Seq<usize>,
    pub status: State,
    /// The side that moves next.
    pub turn: Player,
    /// The side that completed a line, `EMPTY` while nobody has.
    pub winner: Player,
    pub difficulty: Difficulty,
}

/// The cells `a`, `b` and `c` are held by one side.
pub open spec fn three_alike(cells: Seq<Player>, a: int, b: int, c: int) -> bool {
    cells[a] != Player::EMPTY && cells[a] == cells[b] && cells[b] == cells[c]
}

/// Some line that runs through cell `p` is held by one side: its row, its
/// column, or a diagonal that it lies on.
pub open spec fn line_through(cells: Seq<Player>, p: int) -> bool {
    let row = p / 3;
    let col = p % 3;
    ||| three_alike(cells, row * 3, row * 3 + 1, row * 3 + 2)
    ||| three_alike(cells, col, col + 3, col + 6)
    ||| ((p == 0 || p == 4 || p == 8) && three_alike(cells, 0, 4, 8))
    ||| ((p == 2 || p == 4 || p == 6) && three_alike(cells, 2, 4, 6))
}

/// Some row, column or diagonal of the board is held by `side`.
pub open spec fn holds_line(cells: Seq<Player>, side: Player) -> bool {
    side != Player::EMPTY && {
    ||| (cells[0] == side && cells[1] == side && cells[2] == side)
    ||| (cells[3] == side && cells[4] == side && cells[5] == side)
    ||| (cells[6] == side && cells[7] == side && cells[8] == side)
    ||| (cells[0] == side && cells[3] == side && cells[6] == side)
    ||| (cells[1] == side && cells[4] == side && cells[7] == side)
    ||| (cells[2] == side && cells[5] == side && cells[8] == side)
    ||| (cells[0] == side && cells[4] == side && cells[8] == side)
    ||| (cells[2] == side && cells[4] == side && cells[6] == side)
    }
}

/// Some row, column or diagonal of the board is held by one side.
pub open spec fn has_line(cells: Seq<Player>) -> bool {
    holds_line(cells, Player::X) || holds_line(cells, Player::O)
}

/// One for a cell that is held, zero for an empty one.
pub open spec fn taken(cell: Player) -> int {
    if cell == Player::EMPTY { 0 } else { 1 }
}

/// The number of cells that are held.
pub open spec fn occupied(cells: Seq<Player>) -> int {
    taken(cells[0]) + taken(cells[1]) + taken(cells[2])
        + taken(cells[3]) + taken(cells[4]) + taken(cells[5])
        + taken(cells[6]) + taken(cells[7]) + taken(cells[8])
}

/// The status that follows from the cell changed last: decided where a line
/// through the latest move is complete, drawn where all nine moves are made
/// without one, in progress otherwise and on a board without moves.
pub open spec fn status_of(cells: Seq<Player>, history: Seq<usize>) -> State {
    if history.len() == 0 {
        State::INPROGRESS
    } else if line_through(cells, history.last() as int) {
        State::RESULTED
    } else if history.len() >= 9 {
        State::DRAW
    } else {
        State::INPROGRESS
    }
}

/// The side that holds the line through the latest move, `EMPTY` where
/// there is no such line.
pub open spec fn winner_of(cells: Seq<Player>, history: Seq<usize>) -> Player {
    if history.len() > 0 && line_through(cells, history.last() as int) {
        cells[history.last() as int]
    } else {
        Player::EMPTY
    }
}

/// The empty cells among the first `n`, in ascending order.
pub open spec fn vacant_below(cells: Seq<Player>, n: nat) -> Seq<usize>
    decreases n,
{
    if n == 0 {
        Seq::empty()
    } else {
        let lower = vacant_below(cells, (n - 1) as nat);
        if cells[n - 1] == Player::EMPTY {
            lower.push((n - 1) as usize)
        } else {
            lower
        }
    }
}

/// The score a search starts from: below every outcome for the side that
/// maximizes, above every outcome for the side that minimizes.
pub open spec fn sentinel(maximizing: bool) -> int {
    if maximizing { -1000 } else { 1000 }
}

/// The better of two scores for the side that maximizes or minimizes.
pub open spec fn better(maximizing: bool, best: int, score: int) -> int {
    if maximizing {
        if score > best { score } else { best }
    } else {
        if score < best { score } else { best }
    }
}

impl BoardView {
    /// The board before the first move.
    pub open spec fn fresh(start: Player, difficulty: Difficulty) -> BoardView {
        BoardView {
            cells: Seq::new(9, |i: int| Player::EMPTY),
            history: Seq::empty(),
            status: State::INPROGRESS,
            turn: start,
            winner: Player::EMPTY,
            difficulty,
        }
    }

    /// The board is one that a game can reach: nine cells, a side to move,
    /// each held cell recorded once in the history and each record a held
    /// cell, status and winner as the latest move left them.
    pub open spec fn wf(self) -> bool {
        &&& self.cells.len() == 9
        &&& self.turn != Player::EMPTY
        &&& self.history.len() == occupied(self.cells)
        &&& self.history.no_duplicates()
        &&& forall|k: int| 0 <= k < self.history.len() ==> #[trigger] self.history[k] < 9
        &&& forall|p: usize| p < 9 ==>
                (self.cells[p as int] != Player::EMPTY <==> #[trigger] self.history.contains(p))
        &&& self.status == status_of(self.cells, self.history)
        &&& self.winner == winner_of(self.cells, self.history)
    }

    /// Position `p` is a cell that has not been played.
    pub open spec fn legal(self, p: usize) -> bool {
        p <= 8 && !self.history.contains(p)
    }

    /// What a request to play `p` is answered with: a position beyond the
    /// ninth cell is out of range, one played before is occupied, any other
    /// is accepted.
    pub open spec fn verdict(self, p: usize) -> Result<(), MoveError> {
        if p > 8 {
            Err(MoveError::OutOfRange)
        } else if self.history.contains(p) {
            Err(MoveError::CellOccupied)
        } else {
            Ok(())
        }
    }

    /// The board after a request to play `p`: the move applied where it is
    /// legal, the board untouched where it is refused.
    pub open spec fn after_request(self, p: usize) -> BoardView {
        if self.legal(p) { self.apply(p) } else { self }
    }

    /// The board after the side to move has played `p`.
    pub open spec fn apply(self, p: usize) -> BoardView {
        let cells = self.cells.update(p as int, self.turn);
        let history = self.history.push(p);
        BoardView {
            cells,
            history,
            status: status_of(cells, history),
            turn: self.turn.other(),
            winner: winner_of(cells, history),
            difficulty: self.difficulty,
        }
    }

    /// The board after its latest move has been taken back.
    pub open spec fn undo(self) -> BoardView {
        let cells = self.cells.update(self.history.last() as int, Player::EMPTY);
        let history = self.history.drop_last();
        BoardView {
            cells,
            history,
            status: status_of(cells, history),
            turn: self.turn.other(),
            winner: winner_of(cells, history),
            difficulty: self.difficulty,
        }
    }

    /// The board after the moves of `moves` have been played in their order.
    pub open spec fn play(self, moves: Seq<usize>) -> BoardView
        decreases moves.len(),
    {
        if moves.len() == 0 {
            self
        } else {
            self.play(moves.drop_last()).apply(moves.last())
        }
    }

    /// Each move of `moves` is legal on the board that the moves before it
    /// leave.
    pub open spec fn playable(self, moves: Seq<usize>) -> bool
        decreases moves.len(),
    {
        moves.len() == 0 || (self.playable(moves.drop_last())
            && self.play(moves.drop_last()).legal(moves.last()))
    }

    /// Each move of `moves` is legal and made while the game is in
    /// progress: nobody plays on after a win or a draw.
    pub open spec fn played_fairly(self, moves: Seq<usize>) -> bool
        decreases moves.len(),
    {
        moves.len() == 0 || (self.played_fairly(moves.drop_last())
            && self.play(moves.drop_last()).status == State::INPROGRESS
            && self.play(moves.drop_last()).legal(moves.last()))
    }

    /// The board after its latest `n` moves have been taken back.
    pub open spec fn unwind(self, n: nat) -> BoardView
        decreases n,
    {
        if n == 0 {
            self
        } else {
            self.undo().unwind((n - 1) as nat)
        }
    }

    /// Status and winner say what the whole board shows: the game is
    /// decided exactly where some line is complete, and then the winner
    /// holds it and the other side holds none; it is drawn exactly where
    /// all nine cells are held and no line is complete.
    pub open spec fn settled(self) -> bool {
        &&& self.status == State::RESULTED <==> has_line(self.cells)
        &&& self.status == State::DRAW <==> !has_line(self.cells) && self.history.len() == 9
        &&& self.status == State::RESULTED ==> holds_line(self.cells, self.winner)
        &&& self.status == State::RESULTED ==> !holds_line(self.cells, self.winner.other())
        &&& self.status != State::RESULTED ==> self.winner == Player::EMPTY
    }

    /// The empty cells, in ascending order.
    pub open spec fn available(self) -> Seq<usize> {
        vacant_below(self.cells, self.cells.len())
    }

    /// The value of the position for the side that is not `mover`: 1 where
    /// that side has won or can force a win, -1 where `mover` has or can,
    /// 0 for a draw. The side to move picks the move that is best for it.
    pub open spec fn score(self, mover: Player) -> int
        decreases 9 - self.history.len(), 1int, 0int,
    {
        if self.status == State::RESULTED {
            if self.winner == mover { -1 } else { 1 }
        } else if self.status == State::DRAW {
            0
        } else {
            self.best_score(mover, self.available(), self.available().len())
        }
    }

    /// The best score over the first `k` of `moves`, each played on this
    /// board and valued by `score`. A board with nine moves made has
    /// nothing to search.
    pub open spec fn best_score(self, mover: Player, moves: Seq<usize>, k: nat) -> int
        decreases 9 - self.history.len(), 0int, k,
    {
        let maximizing = self.turn != mover;
        if k == 0 || self.history.len() >= 9 {
            sentinel(maximizing)
        } else {
            let before = self.best_score(mover, moves, (k - 1) as nat);
            better(maximizing, before, self.apply(moves[k - 1]).score(mover))
        }
    }

    /// The value that the side to move gains by playing `p`: the score of
    /// the board after the move, seen against the side that moves next.
    #[verifier::opaque]
    pub open spec fn gain(self, p: usize) -> int {
        let next = self.apply(p);
        next.score(next.turn)
    }

    /// The best gain over the first `k` of `moves` and the first move that
    /// reaches it; the sentinel and position 0 where there is none.
    pub open spec fn best_choice(self, moves: Seq<usize>, k: nat) -> (int, usize)
        decreases k,
    {
        if k == 0 {
            (-1000, 0usize)
        } else {
            let before = self.best_choice(moves, (k - 1) as nat);
            let gain = self.gain(moves[k - 1]);
            if gain > before.0 { (gain, moves[k - 1]) } else { before }
        }
    }

    /// The move of the strongest player: the first empty cell with the
    /// greatest gain.
    pub open spec fn best_move(self) -> usize {
        self.best_choice(self.available(), self.available().len()).1
    }
}

} // verus!
