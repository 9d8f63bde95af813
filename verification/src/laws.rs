//! What holds of every game: the laws of moves, of their undoing and of the
//! search, stated over the model and proved.

use vstd::prelude::*;
use crate::model::{
    better, has_line, holds_line, line_through, occupied, sentinel, taken, vacant_below, BoardView,
};
use crate::player::{Difficulty, State};
use crate::player::Player;

verus! {

/// Filling an empty cell raises the number of held cells by one, and
/// emptying a held cell lowers it by one.
pub proof fn lemma_occupied_update(cells: Seq<Player>, p: int, value: Player)
    requires
        cells.len() == 9,
        0 <= p < 9,
    ensures
        occupied(cells.update(p, value)) == occupied(cells) - taken(cells[p]) + taken(value),
        0 <= occupied(cells) <= 9,
{
    let after = cells.update(p, value);
    let a = taken(after[0]) + taken(after[1]) + taken(after[2]);
    let b = taken(after[3]) + taken(after[4]) + taken(after[5]);
    let c = taken(after[6]) + taken(after[7]) + taken(after[8]);
    let a0 = taken(cells[0]) + taken(cells[1]) + taken(cells[2]);
    let b0 = taken(cells[3]) + taken(cells[4]) + taken(cells[5]);
    let c0 = taken(cells[6]) + taken(cells[7]) + taken(cells[8]);
    let delta = taken(value) - taken(cells[p]);
    assert(0 <= a0 <= 3 && 0 <= b0 <= 3 && 0 <= c0 <= 3);
    if p < 3 {
        assert(a == a0 + delta && b == b0 && c == c0);
    } else if p < 6 {
        assert(a == a0 && b == b0 + delta && c == c0);
    } else {
        assert(a == a0 && b == b0 && c == c0 + delta);
    }
    assert(occupied(after) == a + b + c);
    assert(occupied(cells) == a0 + b0 + c0);
}

/// A legal move on a valid board leaves a valid board.
pub proof fn lemma_apply_keeps_wf(board: BoardView, p: usize)
    requires
        board.wf(),
        board.legal(p),
    ensures
        board.apply(p).wf(),
        board.apply(p).history.len() == board.history.len() + 1,
        board.history.len() < 9,
{
    let after = board.apply(p);
    assert(board.cells[p as int] == Player::EMPTY);
    assert(after.cells == board.cells.update(p as int, board.turn));
    assert(after.history == board.history.push(p));
    assert(after.history.len() == occupied(after.cells)) by {
        lemma_occupied_update(board.cells, p as int, board.turn);
    }
    assert(board.history.len() < 9) by {
        lemma_occupied_update(board.cells, p as int, board.turn);
    }
    assert(after.history.no_duplicates());
    assert forall|q: usize| q < 9 implies (after.cells[q as int] != Player::EMPTY
        <==> #[trigger] after.history.contains(q)) by {
        if q == p {
            assert(after.history[board.history.len() as int] == p);
        } else {
            if board.history.contains(q) {
                let k = choose|k: int| 0 <= k < board.history.len() && board.history[k] == q;
                assert(after.history[k] == q);
            }
            if after.history.contains(q) {
                let k = choose|k: int| 0 <= k < after.history.len() && after.history[k] == q;
                assert(board.history[k] == q);
            }
        }
    }
    assert forall|k: int| 0 <= k < after.history.len() implies #[trigger] after.history[k] < 9 by {
        if k < board.history.len() {
            assert(after.history[k] == board.history[k]);
        }
    }
}

/// Taking back the latest move of a valid board leaves a valid board.
pub proof fn lemma_undo_keeps_wf(board: BoardView)
    requires
        board.wf(),
        board.history.len() > 0,
    ensures
        board.undo().wf(),
        board.undo().history.len() == board.history.len() - 1,
{
    let before = board.undo();
    let p = board.history.last();
    assert(board.history[board.history.len() - 1] == p);
    assert(board.history.contains(p));
    assert(board.cells[p as int] != Player::EMPTY);
    assert(before.history.no_duplicates());
    assert forall|q: usize| q < 9 implies (before.cells[q as int] != Player::EMPTY
        <==> #[trigger] before.history.contains(q)) by {
        if q == p {
            if before.history.contains(q) {
                let k = choose|k: int| 0 <= k < before.history.len() && before.history[k] == q;
                assert(board.history[k] == q);
            }
        } else {
            if board.history.contains(q) {
                let k = choose|k: int| 0 <= k < board.history.len() && board.history[k] == q;
                assert(before.history[k] == q);
            }
            if before.history.contains(q) {
                let k = choose|k: int| 0 <= k < before.history.len() && before.history[k] == q;
                assert(board.history[k] == q);
            }
        }
    }
    assert forall|k: int| 0 <= k < before.history.len() implies #[trigger] before.history[k] < 9 by {
        assert(before.history[k] == board.history[k]);
    }
}

/// Undo is the inverse of a move: a legal move taken back leaves the board
/// as it was.
pub proof fn lemma_undo_reverts_apply(board: BoardView, p: usize)
    requires
        board.wf(),
        board.legal(p),
    ensures
        board.apply(p).undo() == board,
{
    let after = board.apply(p);
    let back = after.undo();
    assert(board.cells[p as int] == Player::EMPTY);
    assert(after.history.last() == p);
    assert(back.cells =~= board.cells);
    assert(back.history =~= board.history);
    assert(board.turn.other().other() == board.turn);
}

/// The empty cells among the first `n` are listed in ascending order, each
/// once, and nothing else is listed.
pub proof fn lemma_vacant_below(cells: Seq<Player>, n: nat)
    requires
        n <= cells.len(),
        n <= usize::MAX,
    ensures
        forall|k: int| 0 <= k < vacant_below(cells, n).len() ==>
            (#[trigger] vacant_below(cells, n)[k]) < n
                && cells[vacant_below(cells, n)[k] as int] == Player::EMPTY,
        forall|j: int, k: int| 0 <= j < k < vacant_below(cells, n).len() ==>
            vacant_below(cells, n)[j] < vacant_below(cells, n)[k],
        forall|p: usize| p < n && cells[p as int] == Player::EMPTY ==>
            #[trigger] vacant_below(cells, n).contains(p),
        vacant_below(cells, n).len() <= n,
    decreases n,
{
    if n > 0 {
        let lower = vacant_below(cells, (n - 1) as nat);
        let all = vacant_below(cells, n);
        lemma_vacant_below(cells, (n - 1) as nat);
        assert forall|p: usize| p < n && cells[p as int] == Player::EMPTY implies
            #[trigger] all.contains(p) by {
            if p < n - 1 {
                assert(lower.contains(p));
                let k = choose|k: int| 0 <= k < lower.len() && lower[k] == p;
                assert(all[k] == p);
            } else {
                assert(all[all.len() - 1] == p);
            }
        }
    }
}

/// On a valid board the available moves are exactly the legal ones, in
/// ascending order, and a game in progress has at least one.
pub proof fn lemma_available_cells(board: BoardView)
    requires
        board.wf(),
    ensures
        forall|k: int| 0 <= k < board.available().len() ==>
            board.legal(#[trigger] board.available()[k]),
        forall|j: int, k: int| 0 <= j < k < board.available().len() ==>
            board.available()[j] < board.available()[k],
        forall|p: usize| board.legal(p) ==> #[trigger] board.available().contains(p),
        board.available().len() <= 9,
        board.status == State::INPROGRESS ==> board.available().len() > 0,
{
    lemma_vacant_below(board.cells, 9);
    if board.status == State::INPROGRESS {
        assert(board.history.len() < 9);
        assert(occupied(board.cells) < 9);
        let p: usize = if board.cells[0] == Player::EMPTY { 0 }
            else if board.cells[1] == Player::EMPTY { 1 }
            else if board.cells[2] == Player::EMPTY { 2 }
            else if board.cells[3] == Player::EMPTY { 3 }
            else if board.cells[4] == Player::EMPTY { 4 }
            else if board.cells[5] == Player::EMPTY { 5 }
            else if board.cells[6] == Player::EMPTY { 6 }
            else if board.cells[7] == Player::EMPTY { 7 }
            else { 8 };
        assert(board.cells[p as int] == Player::EMPTY);
        assert(board.available().contains(p));
    }
}

/// Every score of a valid board is a loss, a draw or a win: -1, 0 or 1.
pub proof fn lemma_score_range(board: BoardView, mover: Player)
    requires
        board.wf(),
    ensures
        -1 <= board.score(mover) <= 1,
    decreases 9 - board.history.len(), 1int, 0int,
{
    if board.status == State::INPROGRESS {
        lemma_available_cells(board);
        lemma_best_score_is_best(board, mover, board.available(), board.available().len());
    }
}

/// The best score over the first `k` of `moves` is the score of one of
/// them, and none of them has a better one: none a greater one where the
/// side to move maximizes, none a smaller one where it minimizes.
pub proof fn lemma_best_score_is_best(board: BoardView, mover: Player, moves: Seq<usize>, k: nat)
    requires
        board.wf(),
        board.status == State::INPROGRESS,
        k <= moves.len(),
        forall|j: int| 0 <= j < k ==> board.legal(#[trigger] moves[j]),
    ensures
        k == 0 ==> board.best_score(mover, moves, k) == sentinel(board.turn != mover),
        k > 0 ==> -1 <= board.best_score(mover, moves, k) <= 1,
        k > 0 ==> exists|j: int| 0 <= j < k
            && board.best_score(mover, moves, k) == #[trigger] board.apply(moves[j]).score(mover),
        forall|j: int| 0 <= j < k ==> better(
            board.turn != mover,
            board.best_score(mover, moves, k),
            #[trigger] board.apply(moves[j]).score(mover),
        ) == board.best_score(mover, moves, k),
    decreases 9 - board.history.len(), 0int, k,
{
    if k > 0 {
        let last = moves[k - 1];
        lemma_apply_keeps_wf(board, last);
        lemma_score_range(board.apply(last), mover);
        lemma_best_score_is_best(board, mover, moves, (k - 1) as nat);
        let before = board.best_score(mover, moves, (k - 1) as nat);
        let best = board.best_score(mover, moves, k);
        if best == board.apply(last).score(mover) {
            assert(0 <= k - 1 < k && best == board.apply(moves[k - 1]).score(mover));
        } else {
            assert(best == before);
            assert(k - 1 > 0);
            let j = choose|j: int| 0 <= j < k - 1
                && before == #[trigger] board.apply(moves[j]).score(mover);
            assert(0 <= j < k && best == board.apply(moves[j]).score(mover));
        }
    }
}

/// The best choice over the first `k` of `moves` is the first of them with
/// the greatest gain.
pub proof fn lemma_best_choice_is_best(board: BoardView, moves: Seq<usize>, k: nat)
    requires
        board.wf(),
        k <= moves.len(),
        forall|j: int| 0 <= j < k ==> board.legal(#[trigger] moves[j]),
    ensures
        k == 0 ==> board.best_choice(moves, k) == (-1000int, 0usize),
        k > 0 ==> exists|j: int| 0 <= j < k
            && board.best_choice(moves, k) == (board.gain(#[trigger] moves[j]), moves[j])
            && (forall|i: int| 0 <= i < j ==> board.gain(#[trigger] moves[i]) < board.gain(moves[j]))
            && (forall|i: int| j <= i < k ==> board.gain(#[trigger] moves[i]) <= board.gain(moves[j])),
        forall|j: int| 0 <= j < k ==> -1 <= board.gain(#[trigger] moves[j]) <= 1,
    decreases k,
{
    if k > 0 {
        let last = moves[k - 1];
        assert(-1 <= board.gain(last) <= 1) by {
            reveal(BoardView::gain);
            lemma_apply_keeps_wf(board, last);
            lemma_score_range(board.apply(last), board.apply(last).turn);
        }
        lemma_best_choice_is_best(board, moves, (k - 1) as nat);
        let before = board.best_choice(moves, (k - 1) as nat);
        let now = board.best_choice(moves, k);
        if k == 1 {
            assert(now == (board.gain(moves[0]), moves[0]));
        } else {
            let j0 = choose|j: int| 0 <= j < k - 1
                && before == (board.gain(#[trigger] moves[j]), moves[j])
                && (forall|i: int| 0 <= i < j ==> board.gain(#[trigger] moves[i]) < board.gain(moves[j]))
                && (forall|i: int| j <= i < k - 1 ==> board.gain(#[trigger] moves[i]) <= board.gain(moves[j]));
            if board.gain(last) > before.0 {
                assert(now == (board.gain(moves[k - 1]), moves[k - 1]));
                assert forall|i: int| 0 <= i < k - 1 implies
                    board.gain(#[trigger] moves[i]) < board.gain(moves[k - 1]) by {
                    assert(board.gain(moves[i]) <= board.gain(moves[j0]));
                }
            } else {
                assert(now == before);
            }
        }
    }
}

/// The best move of a valid board with an empty cell is an empty cell; no
/// empty cell has a greater gain, and every earlier one has a smaller one.
/// On a board without an empty cell the best move is position 0.
pub proof fn lemma_best_move_is_best(board: BoardView)
    requires
        board.wf(),
    ensures
        board.available().len() == 0 ==> board.best_move() == 0,
        board.available().len() > 0 ==> board.available().contains(board.best_move()),
        board.available().len() > 0 ==> board.legal(board.best_move()),
        forall|p: usize| board.legal(p) ==> board.gain(p) <= board.gain(board.best_move()),
        forall|p: usize| board.legal(p) && p < board.best_move() ==>
            board.gain(p) < board.gain(board.best_move()),
{
    let moves = board.available();
    lemma_available_cells(board);
    lemma_best_choice_is_best(board, moves, moves.len());
    if moves.len() > 0 {
        let j = choose|j: int| 0 <= j < moves.len()
            && board.best_choice(moves, moves.len()) == (board.gain(#[trigger] moves[j]), moves[j])
            && (forall|i: int| 0 <= i < j ==> board.gain(#[trigger] moves[i]) < board.gain(moves[j]))
            && (forall|i: int| j <= i < moves.len() ==> board.gain(#[trigger] moves[i]) <= board.gain(moves[j]));
        assert(board.best_move() == moves[j]);
        assert forall|p: usize| board.legal(p) implies board.gain(p) <= board.gain(board.best_move()) by {
            assert(moves.contains(p));
            let i = choose|i: int| 0 <= i < moves.len() && moves[i] == p;
            assert(board.gain(moves[i]) <= board.gain(moves[j]));
        }
        assert forall|p: usize| board.legal(p) && p < board.best_move() implies
            board.gain(p) < board.gain(board.best_move()) by {
            assert(moves.contains(p));
            let i = choose|i: int| 0 <= i < moves.len() && moves[i] == p;
            if i > j {
                assert(moves[j] < moves[i]);
            }
        }
    } else {
        assert forall|p: usize| board.legal(p) implies board.gain(p) <= board.gain(board.best_move()) by {
            assert(moves.contains(p));
        }
    }
}

/// The board before the first move is valid, and its status says what the
/// board shows.
pub proof fn lemma_fresh_is_valid(start: Player, difficulty: Difficulty)
    requires
        start != Player::EMPTY,
    ensures
        BoardView::fresh(start, difficulty).wf(),
        BoardView::fresh(start, difficulty).settled(),
        BoardView::fresh(start, difficulty).available() =~= Seq::new(9, |i: int| i as usize),
{
    let fresh = BoardView::fresh(start, difficulty);
    reveal_with_fuel(vacant_below, 10);
    assert(fresh.available() =~= Seq::new(9, |i: int| i as usize));
}

/// A run of legal moves leaves a valid board whose history is the old one
/// with the moves behind it.
pub proof fn lemma_play_keeps_wf(board: BoardView, moves: Seq<usize>)
    requires
        board.wf(),
        board.playable(moves),
    ensures
        board.play(moves).wf(),
        board.play(moves).history == board.history + moves,
        board.play(moves).difficulty == board.difficulty,
    decreases moves.len(),
{
    if moves.len() > 0 {
        lemma_play_keeps_wf(board, moves.drop_last());
        lemma_apply_keeps_wf(board.play(moves.drop_last()), moves.last());
        assert(board.play(moves).history =~= board.history + moves);
    } else {
        assert(board.play(moves).history =~= board.history + moves);
    }
}

/// The turn alternates with every move: after an even number of legal
/// moves the side that began is to move, after an odd number the other.
pub proof fn lemma_turn_alternates(board: BoardView, moves: Seq<usize>)
    requires
        board.wf(),
        board.playable(moves),
    ensures
        board.play(moves).turn == (if moves.len() % 2 == 0 { board.turn } else { board.turn.other() }),
    decreases moves.len(),
{
    if moves.len() > 0 {
        lemma_turn_alternates(board, moves.drop_last());
    }
}

/// Undo is the inverse of play: a run of legal moves taken back one by one
/// leaves the board as it was.
pub proof fn lemma_unwind_reverts_play(board: BoardView, moves: Seq<usize>)
    requires
        board.wf(),
        board.playable(moves),
    ensures
        board.play(moves).unwind(moves.len()) == board,
    decreases moves.len(),
{
    if moves.len() > 0 {
        let earlier = board.play(moves.drop_last());
        lemma_play_keeps_wf(board, moves.drop_last());
        lemma_undo_reverts_apply(earlier, moves.last());
        lemma_unwind_reverts_play(board, moves.drop_last());
    }
}

/// A game played from the first move and taken back move by move ends on
/// the board it began with: all cells empty, no history, the side that
/// began to move, the game in progress. Before the moves are taken back,
/// the side that began is to move after an even number of moves, the other
/// side after an odd number.
pub proof fn lemma_unwind_restores_fresh(start: Player, difficulty: Difficulty, moves: Seq<usize>)
    requires
        start != Player::EMPTY,
        BoardView::fresh(start, difficulty).playable(moves),
    ensures
        BoardView::fresh(start, difficulty).play(moves).unwind(moves.len())
            == BoardView::fresh(start, difficulty),
        BoardView::fresh(start, difficulty).play(moves).turn
            == (if moves.len() % 2 == 0 { start } else { start.other() }),
{
    lemma_fresh_is_valid(start, difficulty);
    lemma_unwind_reverts_play(BoardView::fresh(start, difficulty), moves);
    lemma_turn_alternates(BoardView::fresh(start, difficulty), moves);
}

/// Where no line is complete and a side takes an empty cell, a line is
/// complete afterwards exactly if one through that cell is, and then the
/// side that moved holds it and the other side holds none.
pub proof fn lemma_new_line_runs_through_move(cells: Seq<Player>, p: int, side: Player)
    requires
        cells.len() == 9,
        0 <= p < 9,
        cells[p] == Player::EMPTY,
        side != Player::EMPTY,
        !has_line(cells),
    ensures
        line_through(cells.update(p, side), p) <==> has_line(cells.update(p, side)),
        has_line(cells.update(p, side)) ==> holds_line(cells.update(p, side), side),
        !holds_line(cells.update(p, side), side.other()),
{
    let after = cells.update(p, side);
    assert(after[0] == (if p == 0 { side } else { cells[0] }));
    assert(after[1] == (if p == 1 { side } else { cells[1] }));
    assert(after[2] == (if p == 2 { side } else { cells[2] }));
    assert(after[3] == (if p == 3 { side } else { cells[3] }));
    assert(after[4] == (if p == 4 { side } else { cells[4] }));
    assert(after[5] == (if p == 5 { side } else { cells[5] }));
    assert(after[6] == (if p == 6 { side } else { cells[6] }));
    assert(after[7] == (if p == 7 { side } else { cells[7] }));
    assert(after[8] == (if p == 8 { side } else { cells[8] }));
    let row = p / 3;
    let col = p % 3;
    assert(row == 0 || row == 1 || row == 2);
    assert(col == 0 || col == 1 || col == 2);
    assert(p == row * 3 + col);
}

/// A legal move made while the game is in progress keeps status and winner
/// in step with the whole board: looking at the lines through the latest
/// move finds every complete line.
pub proof fn lemma_move_keeps_settled(board: BoardView, p: usize)
    requires
        board.wf(),
        board.settled(),
        board.status == State::INPROGRESS,
        board.legal(p),
    ensures
        board.apply(p).settled(),
{
    let after = board.apply(p);
    lemma_apply_keeps_wf(board, p);
    lemma_new_line_runs_through_move(board.cells, p as int, board.turn);
    assert(after.history.last() == p);
    assert(after.cells[p as int] == board.turn);
}

/// In a game played from the first move, with no move made after a win or
/// a draw, status and winner always say what the whole board shows.
pub proof fn lemma_fair_game_is_settled(start: Player, difficulty: Difficulty, moves: Seq<usize>)
    requires
        start != Player::EMPTY,
        BoardView::fresh(start, difficulty).played_fairly(moves),
    ensures
        BoardView::fresh(start, difficulty).playable(moves),
        BoardView::fresh(start, difficulty).play(moves).wf(),
        BoardView::fresh(start, difficulty).play(moves).settled(),
    decreases moves.len(),
{
    let fresh = BoardView::fresh(start, difficulty);
    lemma_fresh_is_valid(start, difficulty);
    if moves.len() > 0 {
        lemma_fair_game_is_settled(start, difficulty, moves.drop_last());
        lemma_apply_keeps_wf(fresh.play(moves.drop_last()), moves.last());
        lemma_move_keeps_settled(fresh.play(moves.drop_last()), moves.last());
    }
}

/// The number of held cells among the first `n`.
pub open spec fn occupied_below(cells: Seq<Player>, n: nat) -> int
    decreases n,
{
    if n == 0 {
        0
    } else {
        occupied_below(cells, (n - 1) as nat) + taken(cells[n - 1])
    }
}

/// Among the first `n` cells, the empty ones and the held ones add up to
/// `n`.
pub proof fn lemma_vacant_and_occupied(cells: Seq<Player>, n: nat)
    ensures
        vacant_below(cells, n).len() + occupied_below(cells, n) == n,
    decreases n,
{
    if n > 0 {
        lemma_vacant_and_occupied(cells, (n - 1) as nat);
    }
}

/// The empty cells and the moves made add up to the nine cells.
pub proof fn lemma_available_count(board: BoardView)
    requires
        board.wf(),
    ensures
        board.available().len() == 9 - board.history.len(),
{
    lemma_vacant_and_occupied(board.cells, 9);
    assert(occupied_below(board.cells, 9) == occupied(board.cells)) by {
        reveal_with_fuel(occupied_below, 10);
    }
}

/// What one side gains the other loses: the score against one side is the
/// negated score against the other.
pub proof fn lemma_score_is_antisymmetric(board: BoardView, mover: Player)
    requires
        board.wf(),
        mover != Player::EMPTY,
    ensures
        board.score(mover) == -board.score(mover.other()),
    decreases 9 - board.history.len(), 1int, 0int,
{
    if board.status == State::RESULTED {
        assert(board.history.contains(board.history.last())) by {
            assert(board.history[board.history.len() - 1] == board.history.last());
        }
        assert(board.winner != Player::EMPTY);
    } else if board.status == State::INPROGRESS {
        lemma_available_cells(board);
        lemma_best_score_is_antisymmetric(board, mover, board.available(), board.available().len());
    }
}

/// The best score against one side is the negated best score against the
/// other.
pub proof fn lemma_best_score_is_antisymmetric(
    board: BoardView,
    mover: Player,
    moves: Seq<usize>,
    k: nat,
)
    requires
        board.wf(),
        board.status == State::INPROGRESS,
        mover != Player::EMPTY,
        k <= moves.len(),
        forall|j: int| 0 <= j < k ==> board.legal(#[trigger] moves[j]),
    ensures
        board.best_score(mover, moves, k) == -board.best_score(mover.other(), moves, k),
    decreases 9 - board.history.len(), 0int, k,
{
    if k > 0 {
        let last = moves[k - 1];
        lemma_apply_keeps_wf(board, last);
        lemma_score_is_antisymmetric(board.apply(last), mover);
        lemma_best_score_is_antisymmetric(board, mover, moves, (k - 1) as nat);
    }
}

/// The gain of a move is the negated score of the board it leaves, seen
/// against the side that made it: a move gains 1 where it wins or forces a
/// win for its side, -1 where the other side can force one.
pub proof fn lemma_gain_is_for_the_mover(board: BoardView, p: usize)
    requires
        board.wf(),
        board.legal(p),
    ensures
        board.gain(p) == -board.apply(p).score(board.turn),
        -1 <= board.gain(p) <= 1,
{
    reveal(BoardView::gain);
    lemma_apply_keeps_wf(board, p);
    lemma_score_is_antisymmetric(board.apply(p), board.turn);
    lemma_score_range(board.apply(p), board.turn);
}

} // verus!
