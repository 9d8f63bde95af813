use tic_tac_toe::{find_available_moves, minimax, Board, Difficulty, Player, State};

fn board_after(start: Player, difficulty: Difficulty, moves: &[usize]) -> Board {
    let mut board = Board::new(start, difficulty);
    for &position in moves {
        assert_eq!(board.make_move(position), Ok(()));
    }
    board
}

#[test]
fn available_moves_of_a_fresh_board_are_all_cells() {
    let board = Board::new(Player::X, Difficulty::EASY);
    assert_eq!(find_available_moves(&board), vec![0, 1, 2, 3, 4, 5, 6, 7, 8]);
}

#[test]
fn available_moves_are_the_empty_cells_in_ascending_order() {
    let board = board_after(Player::X, Difficulty::EASY, &[8, 0, 4]);
    assert_eq!(find_available_moves(&board), vec![1, 2, 3, 5, 6, 7]);
    let full = board_after(Player::X, Difficulty::EASY, &[0, 1, 2, 4, 3, 5, 7, 6, 8]);
    assert_eq!(find_available_moves(&full), Vec::<usize>::new());
}

#[test]
fn available_move_at_indexes_the_ascending_order() {
    let board = board_after(Player::X, Difficulty::EASY, &[8, 0, 4]);
    let expected = [1, 2, 3, 5, 6, 7];
    for (index, &position) in expected.iter().enumerate() {
        assert_eq!(board.available_move_at(index), position);
    }
}

#[test]
fn minimax_scores_a_decided_board_against_the_mover() {
    let mut board = board_after(Player::X, Difficulty::DIFFICULT, &[0, 3, 1, 4, 2]);
    assert_eq!(board.get_winner(), Player::X);
    assert_eq!(minimax(&mut board, &Player::X), -1);
    assert_eq!(minimax(&mut board, &Player::O), 1);
}

#[test]
fn minimax_scores_a_draw_as_zero() {
    let mut board = board_after(Player::X, Difficulty::DIFFICULT, &[0, 1, 2, 4, 3, 5, 7, 6, 8]);
    assert_eq!(board.get_board_state(), State::DRAW);
    assert_eq!(minimax(&mut board, &Player::X), 0);
    assert_eq!(minimax(&mut board, &Player::O), 0);
}

#[test]
fn minimax_sees_a_win_in_one() {
    // X holds 0 and 1, O holds 3 and 4; X is to move and wins at 2.
    let mut board = board_after(Player::X, Difficulty::DIFFICULT, &[0, 3, 1, 4]);
    let before = board.clone();
    assert_eq!(minimax(&mut board, &Player::O), 1);
    assert_eq!(minimax(&mut board, &Player::X), -1);
    assert_eq!(board, before);
}

#[test]
fn minimax_sees_a_forced_loss() {
    // O to move; X threatens both 3 and 7, O can block only one.
    let mut board = board_after(Player::X, Difficulty::DIFFICULT, &[0, 4, 8, 2, 6]);
    assert_eq!(board.get_current_turn(), Player::O);
    let before = board.clone();
    assert_eq!(minimax(&mut board, &Player::X), -1);
    assert_eq!(minimax(&mut board, &Player::O), 1);
    assert_eq!(board, before);
}

#[test]
fn minimax_of_the_fresh_board_is_a_draw() {
    let mut board = Board::new(Player::X, Difficulty::DIFFICULT);
    assert_eq!(minimax(&mut board, &Player::X), 0);
    assert_eq!(minimax(&mut board, &Player::O), 0);
    assert_eq!(board, Board::new(Player::X, Difficulty::DIFFICULT));
}

#[test]
fn best_move_on_a_fresh_board_is_the_first_cell() {
    let mut board = Board::new(Player::X, Difficulty::DIFFICULT);
    assert_eq!(board.get_best_move(), 0);
    assert_eq!(board, Board::new(Player::X, Difficulty::DIFFICULT));
}

#[test]
fn best_move_takes_the_win() {
    let mut board = board_after(Player::X, Difficulty::DIFFICULT, &[0, 3, 1, 4]);
    assert_eq!(board.get_best_move(), 2);
    let mut mirrored = board_after(Player::O, Difficulty::DIFFICULT, &[8, 0, 5, 1]);
    assert_eq!(mirrored.get_best_move(), 2);
}

#[test]
fn best_move_blocks_the_threat() {
    // X holds 0 and 1; O must take 2.
    let mut board = board_after(Player::X, Difficulty::DIFFICULT, &[0, 4, 1]);
    assert_eq!(board.get_current_turn(), Player::O);
    assert_eq!(board.get_best_move(), 2);
}

#[test]
fn best_move_answers_a_corner_with_the_centre() {
    let mut board = board_after(Player::X, Difficulty::DIFFICULT, &[0]);
    assert_eq!(board.get_best_move(), 4);
}

#[test]
fn best_move_breaks_ties_by_the_lowest_cell() {
    // Every reply loses for O here; the first empty cell is chosen.
    let mut board = board_after(Player::X, Difficulty::DIFFICULT, &[0, 4, 8, 2, 6]);
    let moves = find_available_moves(&board);
    assert_eq!(moves, vec![1, 3, 5, 7]);
    assert_eq!(board.get_best_move(), 1);
}

#[test]
fn best_move_blocks_and_holds_the_draw() {
    // X threatens 6; O blocks there and the game stays level.
    let mut board = board_after(Player::X, Difficulty::DIFFICULT, &[0, 4, 8, 5, 3]);
    assert_eq!(board.get_best_move(), 6);
    assert_eq!(minimax(&mut board, &Player::X), 0);
    assert_eq!(minimax(&mut board, &Player::O), 0);
}

#[test]
fn best_move_on_a_full_board_falls_back_to_zero() {
    let mut board = board_after(Player::X, Difficulty::DIFFICULT, &[0, 1, 2, 4, 3, 5, 7, 6, 8]);
    let before = board.clone();
    assert_eq!(board.get_best_move(), 0);
    assert_eq!(board, before);
}

#[test]
fn best_move_leaves_the_board_as_it_was() {
    let mut board = board_after(Player::O, Difficulty::DIFFICULT, &[4, 0, 8]);
    let before = board.clone();
    let chosen = board.get_best_move();
    assert_eq!(board, before);
    assert!(find_available_moves(&board).contains(&chosen));
}

#[test]
fn hard_engine_against_itself_ends_in_a_draw() {
    for start in [Player::X, Player::O] {
        let mut board = Board::new(start, Difficulty::DIFFICULT);
        let mut made = 0;
        while board.get_board_state() == State::INPROGRESS {
            let chosen = board.get_next_move();
            assert!(find_available_moves(&board).contains(&chosen));
            assert_eq!(board.make_move(chosen), Ok(()));
            made += 1;
            assert!(made <= 9);
        }
        assert_eq!(board.get_board_state(), State::DRAW);
        assert_eq!(board.get_winner(), Player::EMPTY);
        assert_eq!(made, 9);
    }
}

#[test]
fn hard_engine_never_loses_to_any_first_two_replies() {
    // The opponent tries every cell for its first two moves and plays the
    // best move after that; the engine, moving second, must not lose.
    for first in 0..9 {
        for second in 0..9 {
            let mut board = Board::new(Player::X, Difficulty::DIFFICULT);
            assert_eq!(board.make_move(first), Ok(()));
            let reply = board.get_next_move();
            assert_eq!(board.make_move(reply), Ok(()));
            if board.make_move(second).is_err() {
                continue;
            }
            while board.get_board_state() == State::INPROGRESS {
                let chosen = board.get_next_move();
                assert_eq!(board.make_move(chosen), Ok(()));
            }
            assert!(
                board.get_board_state() == State::DRAW || board.get_winner() == Player::O,
                "engine lost after {first}, {second}"
            );
        }
    }
}

#[test]
fn random_move_is_an_available_move() {
    let mut board = board_after(Player::X, Difficulty::EASY, &[4, 0, 8]);
    let before = board.clone();
    let moves = find_available_moves(&board);
    let mut seen = vec![false; 9];
    for _ in 0..300 {
        let chosen = board.get_random_move();
        assert!(moves.contains(&chosen));
        seen[chosen] = true;
        let next = board.get_next_move();
        assert!(moves.contains(&next));
    }
    assert_eq!(board, before);
    // With six empty cells, three hundred draws reach more than one of them.
    assert!(seen.iter().filter(|&&hit| hit).count() > 1);
}

#[test]
fn random_move_with_one_cell_left_is_that_cell() {
    let board = board_after(Player::X, Difficulty::EASY, &[0, 1, 2, 4, 3, 5, 7, 6]);
    for _ in 0..20 {
        assert_eq!(board.get_random_move(), 8);
    }
}

#[test]
fn medium_move_is_an_available_move() {
    let mut board = board_after(Player::X, Difficulty::MEDIUM, &[4, 0, 8]);
    let before = board.clone();
    let moves = find_available_moves(&board);
    for _ in 0..60 {
        let chosen = board.get_medium_move();
        assert!(moves.contains(&chosen));
        let next = board.get_next_move();
        assert!(moves.contains(&next));
    }
    assert_eq!(board, before);
}

#[test]
fn medium_move_is_the_best_move_below_the_share() {
    let mut board = board_after(Player::X, Difficulty::MEDIUM, &[0, 4, 1]);
    let best = board.get_best_move();
    assert_eq!(best, 2);
    assert_eq!(tic_tac_toe::search::MEDIUM_BEST_SHARE, 75);
    for drawn in [0, 1, 37, 74] {
        assert_eq!(board.medium_move_for(drawn), best);
    }
    let moves = find_available_moves(&board);
    for drawn in [75, 76, 99] {
        for _ in 0..20 {
            assert!(moves.contains(&board.medium_move_for(drawn)));
        }
    }
}

#[test]
fn medium_move_at_the_share_is_drawn_at_random() {
    let mut board = board_after(Player::X, Difficulty::MEDIUM, &[0, 4, 1]);
    let mut other_than_best = false;
    for _ in 0..400 {
        if board.medium_move_for(75) != 2 {
            other_than_best = true;
        }
    }
    assert!(other_than_best);
}

#[test]
fn next_move_of_the_hard_level_is_the_best_move() {
    let mut board = board_after(Player::X, Difficulty::DIFFICULT, &[0, 4, 1]);
    assert_eq!(board.get_next_move(), 2);
    assert_eq!(board.get_next_move(), board.get_best_move());
}

#[test]
fn next_move_is_not_played() {
    for difficulty in [Difficulty::EASY, Difficulty::MEDIUM, Difficulty::DIFFICULT] {
        let mut board = board_after(Player::X, difficulty, &[4, 0]);
        let before = board.clone();
        let chosen = board.get_next_move();
        assert_eq!(board, before);
        assert_eq!(board.cell(chosen), Player::EMPTY);
    }
}
