//! The engine: the legal moves of a board, the exhaustive search over the
//! game tree, and the move that each difficulty level selects.

use vstd::prelude::*;
use crate::board::Board;
use crate::laws::{
    lemma_apply_keeps_wf, lemma_available_cells, lemma_best_move_is_best, lemma_undo_reverts_apply,
};
use crate::model::{sentinel, vacant_below, BoardView};
use crate::player::{Difficulty, Player, State};
use crate::random::draw_below;

verus! {

/// The number of outcomes of the draw that the medium level makes.
pub const MEDIUM_DRAWS: usize = 100;

/// Of those outcomes, the number on which the medium level plays the best
/// move: the outcomes below this share.
pub const MEDIUM_BEST_SHARE: usize = 75;

/// The empty cells of the board, in ascending order.
pub fn find_available_moves(board: &Board) -> (available_moves: Vec<usize>)
    requires
        board.wf(),
    ensures
        available_moves@ == board@.available(),
        forall|k: int| 0 <= k < available_moves.len() ==> board@.legal(#[trigger] available_moves[k]),
        forall|j: int, k: int| 0 <= j < k < available_moves.len() ==>
            available_moves[j] < available_moves[k],
        forall|p: usize| board@.legal(p) ==> #[trigger] available_moves@.contains(p),
{
    proof {
        lemma_available_cells(board@);
    }
    let mut available_moves: Vec<usize> = vec![];
    let mut index: usize = 0;
    while index < 9
        invariant
            board.wf(),
            index <= 9,
            available_moves@ == vacant_below(board@.cells, index as nat),
        decreases 9 - index,
    {
        if board.cell(index) == Player::EMPTY {
            available_moves.push(index);
        }
        index += 1;
    }
    available_moves
}

/// The value of the board for the side that is not `mover`, found by
/// playing every line of the game to its end. The board is changed while
/// the search runs and is handed back as it was.
pub fn minimax(board: &mut Board, mover: &Player) -> (score: i32)
    requires
        old(board).wf(),
    ensures
        final(board).wf(),
        final(board)@ == old(board)@,
        score == old(board)@.score(*mover),
        -1 <= score <= 1,
    decreases 9 - old(board)@.history.len(),
{
    if board.get_board_state() == State::RESULTED {
        if board.get_winner() != *mover {
            return 1;
        } else {
            return -1;
        }
    } else if board.get_board_state() == State::DRAW {
        return 0;
    }
    let is_max = board.get_current_turn() != *mover;
    let mut best_score: i32 = if is_max { -1000 } else { 1000 };
    let available_moves = find_available_moves(board);
    let mut index: usize = 0;
    proof {
        lemma_available_cells(board@);
    }
    while index < available_moves.len()
        invariant
            board.wf(),
            board@ == old(board)@,
            board@.status == State::INPROGRESS,
            is_max == (board@.turn != *mover),
            available_moves.len() > 0,
            index <= available_moves.len(),
            best_score == board@.best_score(*mover, available_moves@, index as nat),
            index == 0 ==> best_score == sentinel(is_max),
            index > 0 ==> -1 <= best_score <= 1,
            forall|k: int| 0 <= k < available_moves.len() ==> board@.legal(#[trigger] available_moves@[k]),
        decreases available_moves.len() - index,
    {
        let mv: usize = available_moves[index];
        proof {
            lemma_apply_keeps_wf(board@, mv);
            lemma_undo_reverts_apply(board@, mv);
        }
        let applied = board.make_move(mv);
        assert(applied.is_ok());
        let score: i32 = minimax(board, mover);
        if is_max && score > best_score {
            best_score = score;
        }
        if !is_max && score < best_score {
            best_score = score;
        }
        board.undo_move();
        index += 1;
    }
    best_score
}

impl Board {
    /// The move for the side to move, by the board's difficulty level: a
    /// random one for `EASY`, the best one for `DIFFICULT`, for `MEDIUM`
    /// one or the other by chance. The move is not played.
    pub fn get_next_move(&mut self) -> (next_move: usize)
        requires
            old(self).wf(),
            old(self)@.available().len() > 0,
        ensures
            final(self).wf(),
            final(self)@ == old(self)@,
            old(self)@.available().contains(next_move),
            old(self)@.difficulty == Difficulty::DIFFICULT ==> next_move == old(self)@.best_move(),
    {
        proof {
            lemma_best_move_is_best(self@);
        }
        match self.get_difficulty() {
            Difficulty::EASY => self.get_random_move(),
            Difficulty::MEDIUM => self.get_medium_move(),
            Difficulty::DIFFICULT => self.get_best_move(),
        }
    }

    /// The available move at place `index` of their ascending order.
    pub fn available_move_at(&self, index: usize) -> (position: usize)
        requires
            self.wf(),
            index < self@.available().len(),
        ensures
            position == self@.available()[index as int],
    {
        let available_moves = find_available_moves(self);
        available_moves[index]
    }

    /// One of the available moves, each as likely as any other.
    pub fn get_random_move(&self) -> (random_move: usize)
        requires
            self.wf(),
            self@.available().len() > 0,
        ensures
            self@.available().contains(random_move),
    {
        let count: usize = find_available_moves(self).len();
        let move_index: usize = draw_below(count);
        self.available_move_at(move_index)
    }

    /// The move of the medium level for the number `drawn`: the best move
    /// where the number is below `MEDIUM_BEST_SHARE`, a random one
    /// otherwise.
    pub fn medium_move_for(&mut self, drawn: usize) -> (medium_move: usize)
        requires
            old(self).wf(),
            old(self)@.available().len() > 0,
        ensures
            final(self).wf(),
            final(self)@ == old(self)@,
            drawn < MEDIUM_BEST_SHARE ==> medium_move == old(self)@.best_move(),
            old(self)@.available().contains(medium_move),
    {
        proof {
            lemma_best_move_is_best(self@);
        }
        if drawn < MEDIUM_BEST_SHARE {
            self.get_best_move()
        } else {
            self.get_random_move()
        }
    }

    /// The best move on three draws of four, a random one on the fourth.
    pub fn get_medium_move(&mut self) -> (medium_move: usize)
        requires
            old(self).wf(),
            old(self)@.available().len() > 0,
        ensures
            final(self).wf(),
            final(self)@ == old(self)@,
            old(self)@.available().contains(medium_move),
    {
        let random_num: usize = draw_below(MEDIUM_DRAWS);
        self.medium_move_for(random_num)
    }

    /// The first available move with the greatest gain, found by searching
    /// the game tree below each available move; position 0 on a board
    /// without an empty cell. The board is changed while the search runs
    /// and is handed back as it was.
    pub fn get_best_move(&mut self) -> (best_move: usize)
        requires
            old(self).wf(),
        ensures
            final(self).wf(),
            final(self)@ == old(self)@,
            best_move == old(self)@.best_move(),
            old(self)@.available().len() > 0 ==> old(self)@.legal(best_move),
            old(self)@.available().len() == 0 ==> best_move == 0,
            forall|p: usize| old(self)@.legal(p) ==> old(self)@.gain(p) <= old(self)@.gain(best_move),
            forall|p: usize| old(self)@.legal(p) && p < best_move ==>
                old(self)@.gain(p) < old(self)@.gain(best_move),
    {
        proof {
            lemma_best_move_is_best(self@);
        }
        let mut best_score: i32 = -1000;
        let mut best_move: usize = 0;
        let available_moves = find_available_moves(self);
        let mut index: usize = 0;
        while index < available_moves.len()
            invariant
                self.wf(),
                self@ == old(self)@,
                index <= available_moves.len(),
                (best_score as int, best_move) == self@.best_choice(available_moves@, index as nat),
                forall|k: int| 0 <= k < available_moves.len() ==> self@.legal(#[trigger] available_moves@[k]),
            decreases available_moves.len() - index,
        {
            let mv: usize = available_moves[index];
            proof {
                reveal(BoardView::gain);
                lemma_apply_keeps_wf(self@, mv);
                lemma_undo_reverts_apply(self@, mv);
            }
            let applied = self.make_move(mv);
            assert(applied.is_ok());
            let perspective = self.get_current_turn();
            let score: i32 = minimax(self, &perspective);
            if score > best_score {
                best_score = score;
                best_move = mv;
            }
            self.undo_move();
            index += 1;
        }
        best_move
    }
}

} // verus!
