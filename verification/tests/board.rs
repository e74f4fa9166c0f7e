use gomoku::board::{Board, BoardError, Piece, Position, BOARD_SIZE, CENTER};

#[test]
fn place_out_of_bounds_returns_error() {
    let mut board = Board::new();
    let result = board.place(Position::new(BOARD_SIZE, 0), Piece::Black);
    assert_eq!(result, Err(BoardError::OutOfBounds(Position::new(BOARD_SIZE, 0))));
}

#[test]
fn place_occupied_cell_returns_error() {
    let mut board = Board::new();
    board.place(Position::new(5, 5), Piece::Black).unwrap();
    let result = board.place(Position::new(5, 5), Piece::White);
    assert_eq!(result, Err(BoardError::Occupied(Position::new(5, 5))));
}

#[test]
fn undo_removes_piece_and_allows_re_placement() {
    let mut board = Board::new();
    board.place(Position::new(3, 3), Piece::Black).unwrap();
    board.undo(Position::new(3, 3));
    assert!(board.is_empty_at(Position::new(3, 3)));
    board.place(Position::new(3, 3), Piece::White).unwrap();
    assert_eq!(board.get(Position::new(3, 3)), Some(Piece::White));
}

#[test]
fn undo_decrements_move_count() {
    let mut board = Board::new();
    board.place(Position::new(0, 0), Piece::Black).unwrap();
    assert_eq!(board.move_count(), 1);
    board.undo(Position::new(0, 0));
    assert_eq!(board.move_count(), 0);
}

#[test]
fn undo_reverts_zobrist_hash() {
    let mut board = Board::new();
    let hash_before = board.hash;
    board.place(Position::new(5, 5), Piece::Black).unwrap();
    board.undo(Position::new(5, 5));
    assert_eq!(board.hash, hash_before);
}

#[test]
fn score_move_open_five_horizontal_returns_one_million() {
    let mut board = Board::new();
    for col in 0..4 {
        board.place(Position::new(0, col), Piece::Black).unwrap();
    }
    let score = board.score_move(Position::new(0, 4), Piece::Black);
    assert!(score >= 1_000_000, "five-in-a-row should score >= 1 000 000, got {score}");
}

#[test]
fn score_move_open_four_both_ends_free() {
    let mut board = Board::new();
    for col in 1..4 {
        board.place(Position::new(2, col), Piece::Black).unwrap();
    }
    let score = board.score_move(Position::new(2, 4), Piece::Black);
    assert!(score >= 100_000, "open four should score >= 100 000, got {score}");
}

#[test]
fn score_move_closed_four_scores_as_must_block() {
    let mut board = Board::new();
    board.place(Position::new(0, 0), Piece::White).unwrap();
    for col in 1..4 {
        board.place(Position::new(0, col), Piece::Black).unwrap();
    }
    let score = board.score_move(Position::new(0, 4), Piece::Black);
    assert!(score >= 25_000, "closed four should score >= 25 000, got {score}");
    assert!(score < 100_000, "closed four should score < 100 000, got {score}");
}

#[test]
fn score_move_open_three_scores_correctly() {
    let mut board = Board::new();
    for col in 2..4 {
        board.place(Position::new(1, col), Piece::Black).unwrap();
    }
    let score = board.score_move(Position::new(1, 4), Piece::Black);
    assert!(score >= 8_000, "open three should score >= 8 000, got {score}");
}

#[test]
fn score_move_two_in_a_row_open_both_ends() {
    let mut board = Board::new();
    board.place(Position::new(5, 5), Piece::Black).unwrap();
    let score = board.score_move(Position::new(5, 6), Piece::Black);
    assert!(score >= 250, "open two should score >= 250, got {score}");
}

#[test]
fn score_move_vertical_five_in_a_row() {
    let mut board = Board::new();
    for row in 0..4 {
        board.place(Position::new(row, 5), Piece::Black).unwrap();
    }
    let score = board.score_move(Position::new(4, 5), Piece::Black);
    assert!(score >= 1_000_000, "vertical five should score >= 1 000 000, got {score}");
}

#[test]
fn score_move_diagonal_slash_five_in_a_row() {
    let mut board = Board::new();
    for i in 0..4 {
        board.place(Position::new(4 - i, i), Piece::Black).unwrap();
    }
    let score = board.score_move(Position::new(0, 4), Piece::Black);
    assert!(score >= 1_000_000, "diagonal / five should score >= 1 000 000, got {score}");
}

#[test]
fn score_move_diagonal_backslash_five_in_a_row() {
    let mut board = Board::new();
    for i in 0..4 {
        board.place(Position::new(i, i), Piece::Black).unwrap();
    }
    let score = board.score_move(Position::new(4, 4), Piece::Black);
    assert!(score >= 1_000_000, "diagonal \\ five should score >= 1 000 000, got {score}");
}

#[test]
fn empty_board_prefers_center() {
    let board = Board::new();
    assert_eq!(board.candidate_positions(), vec![Position::new(CENTER, CENTER)]);
}

#[test]
fn placed_stone_not_included_in_candidates() {
    let mut board = Board::new();
    board.place(Position::new(9, 9), Piece::Black).unwrap();
    let candidates = board.candidate_positions();
    assert!(!candidates.contains(&Position::new(9, 9)));
}

#[test]
fn candidates_only_within_two_steps_of_stones() {
    let mut board = Board::new();
    board.place(Position::new(9, 9), Piece::Black).unwrap();
    let candidates = board.candidate_positions();
    assert!(!candidates.contains(&Position::new(9, 12)));
    assert!(candidates.contains(&Position::new(9, 11)));
}

#[test]
fn candidates_include_all_adjacent_cells() {
    let mut board = Board::new();
    board.place(Position::new(9, 9), Piece::Black).unwrap();
    let candidates = board.candidate_positions();
    assert!(candidates.contains(&Position::new(7, 7)));
    assert!(candidates.contains(&Position::new(11, 11)));
    assert!(candidates.contains(&Position::new(7, 11)));
    assert!(candidates.contains(&Position::new(11, 7)));
}

#[test]
fn detects_winning_move() {
    let mut board = Board::new();
    for column in 0..4 {
        board.place(Position::new(0, column), Piece::Black).unwrap();
    }

    assert!(board.would_win(Position::new(0, 4), Piece::Black));
    assert_eq!(board.winning_moves(Piece::Black), vec![Position::new(0, 4)]);
}

#[test]
fn winning_moves_returns_empty_when_no_threat() {
    let mut board = Board::new();
    board.place(Position::new(9, 9), Piece::Black).unwrap();
    assert!(board.winning_moves(Piece::Black).is_empty());
}

#[test]
fn winning_moves_detects_both_open_ends_of_open_four() {
    let mut board = Board::new();
    for col in 2..6 {
        board.place(Position::new(5, col), Piece::Black).unwrap();
    }
    let wins = board.winning_moves(Piece::Black);
    assert!(wins.contains(&Position::new(5, 1)) || wins.contains(&Position::new(5, 6)));
    assert!(wins.len() >= 2, "open four should have >= 2 winning positions");
}

#[test]
fn winning_moves_does_not_include_occupied_cells() {
    let mut board = Board::new();
    for col in 0..4 {
        board.place(Position::new(0, col), Piece::Black).unwrap();
    }
    board.place(Position::new(0, 4), Piece::White).unwrap();
    let wins = board.winning_moves(Piece::Black);
    assert!(!wins.contains(&Position::new(0, 4)));
}

#[test]
fn evaluate_for_higher_for_stronger_position() {
    let mut board_weak = Board::new();
    board_weak.place(Position::new(9, 9), Piece::Black).unwrap();

    let mut board_strong = Board::new();
    for col in 0..3 {
        board_strong.place(Position::new(5, col), Piece::Black).unwrap();
    }

    let score_weak = board_weak.evaluate_for(Piece::Black);
    let score_strong = board_strong.evaluate_for(Piece::Black);
    assert!(score_strong > score_weak, "three in a row should score higher than one stone");
}

#[test]
fn evaluate_for_symmetric_on_mirrored_boards() {
    let mut board = Board::new();
    for col in 0..3 {
        board.place(Position::new(5, col), Piece::Black).unwrap();
    }
    let mut board2 = Board::new();
    for col in 0..3 {
        board2.place(Position::new(5, col), Piece::White).unwrap();
    }
    let black_score = board.evaluate_for(Piece::Black);
    let white_score = board2.evaluate_for(Piece::White);
    assert_eq!(black_score, white_score, "mirrored boards should give equal scores");
}

#[test]
fn inspect_correct_candidate_count_after_placing_stone() {
    let mut board = Board::new();
    board.place(Position::new(9, 9), Piece::Black).unwrap();
    let insights = board.inspect(Piece::Black);
    assert!(insights.candidate_count > 0);
    assert!(insights.candidate_count <= 24);
}

#[test]
fn inspect_detects_self_winning_moves() {
    let mut board = Board::new();
    for col in 0..4 {
        board.place(Position::new(0, col), Piece::Black).unwrap();
    }
    let insights = board.inspect(Piece::Black);
    assert!(insights.self_winning_moves >= 1);
}

#[test]
fn inspect_detects_opponent_winning_moves() {
    let mut board = Board::new();
    for col in 0..4 {
        board.place(Position::new(0, col), Piece::White).unwrap();
    }
    let insights = board.inspect(Piece::Black);
    assert!(insights.opponent_winning_moves >= 1);
    assert_eq!(insights.self_winning_moves, 0);
}

#[test]
fn inspect_returns_zero_winning_moves_on_quiet_board() {
    let mut board = Board::new();
    board.place(Position::new(9, 9), Piece::Black).unwrap();
    let insights = board.inspect(Piece::Black);
    assert_eq!(insights.self_winning_moves, 0);
    assert_eq!(insights.opponent_winning_moves, 0);
}

#[test]
fn candidate_generation_stays_local() {
    let mut board = Board::new();
    board.place(Position::new(9, 9), Piece::Black).unwrap();
    let candidates = board.candidate_positions();

    assert!(candidates.contains(&Position::new(7, 7)));
    assert!(candidates.contains(&Position::new(11, 11)));
    assert!(!candidates.contains(&Position::new(0, 0)));
}

#[test]
fn scoring_rewards_center_on_empty_board() {
    let board = Board::new();
    assert!(board.score_move(Position::new(CENTER, CENTER), Piece::Black) > board.score_move(Position::new(0, 0), Piece::Black));
}

#[test]
fn broken_four_scores_as_must_block() {
    let mut board = Board::new();
    for col in 0..3 {
        board.place(Position::new(0, col), Piece::Black).unwrap();
    }
    let score = board.score_move(Position::new(0, 4), Piece::Black);
    assert!(score >= 25_000, "broken four (X X X _ P) should score >= 25 000, got {score}");
}

#[test]
fn broken_four_with_single_skip_on_other_side() {
    let mut board = Board::new();
    for col in [0usize, 1, 2, 6] {
        board.place(Position::new(0, col), Piece::Black).unwrap();
    }
    let score = board.score_move(Position::new(0, 4), Piece::Black);
    assert!(score >= 25_000, "broken four (X X X _ P _ X) should score >= 25 000, got {score}");
}

#[test]
fn plain_two_without_gap_not_inflated() {
    let mut board = Board::new();
    board.place(Position::new(5, 5), Piece::Black).unwrap();
    board.place(Position::new(5, 6), Piece::Black).unwrap();
    let score = board.score_move(Position::new(5, 4), Piece::Black);
    assert!(score < 25_000, "plain open two should score < 25 000, got {score}");
}

#[test]
fn score_move_occupied_cell_returns_min() {
    let mut board = Board::new();
    board.place(Position::new(5, 5), Piece::Black).unwrap();
    let score = board.score_move(Position::new(5, 5), Piece::Black);
    assert!(score < 0, "occupied cell should return a very negative score, got {score}");
}

#[test]
fn score_move_out_of_bounds_returns_min() {
    let board = Board::new();
    let score = board.score_move(Position::new(BOARD_SIZE, 0), Piece::Black);
    assert!(score < 0, "out-of-bounds should return a very negative score, got {score}");
}

#[test]
fn scores_are_exact() {
    let cases: [(&[(usize, usize)], &[(usize, usize)], (usize, usize), i32); 9] = [
        (&[], &[], (9, 9), 80),
        (&[], &[], (0, 0), 44),
        (&[(0, 0), (0, 1), (0, 2), (0, 3)], &[], (0, 4), 1_000_047),
        (&[(2, 1), (2, 2), (2, 3)], &[], (2, 4), 100_051),
        (&[(0, 1), (0, 2), (0, 3)], &[(0, 0)], (0, 4), 25_047),
        (&[(1, 2), (1, 3)], &[], (1, 4), 8_049),
        (&[(0, 1), (0, 2)], &[(0, 0)], (0, 3), 1_545),
        (&[(5, 5), (5, 8)], &[], (5, 6), 1_261),
        (&[(5, 5), (5, 8)], &[(5, 4)], (5, 6), 461),
    ];
    for (black, white, (row, column), score) in cases {
        let mut board = Board::new();
        for &(r, c) in black {
            board.place(Position::new(r, c), Piece::Black).unwrap();
        }
        for &(r, c) in white {
            board.place(Position::new(r, c), Piece::White).unwrap();
        }
        assert_eq!(board.score_move(Position::new(row, column), Piece::Black), score, "{black:?} {white:?}");
    }
}

#[test]
fn twos_score_by_their_open_ends() {
    let mut board = Board::new();
    board.place(Position::new(5, 5), Piece::Black).unwrap();
    assert_eq!(board.score_move(Position::new(5, 6), Piece::Black), 311);
    board.place(Position::new(0, 0), Piece::Black).unwrap();
    assert_eq!(board.score_move(Position::new(0, 1), Piece::Black), 81);
}

#[test]
fn an_unplayable_cell_has_a_fixed_score() {
    let mut board = Board::new();
    board.place(Position::new(5, 5), Piece::Black).unwrap();
    assert_eq!(board.score_move(Position::new(5, 5), Piece::White), i32::MIN / 4);
    assert_eq!(board.score_move(Position::new(0, BOARD_SIZE), Piece::White), i32::MIN / 4);
    assert!(!board.would_win(Position::new(5, 5), Piece::Black));
}

#[test]
fn errors_name_the_cell() {
    assert_eq!(BoardError::OutOfBounds(Position::new(18, 3)).message(), "position out of bounds: (18, 3)");
    assert_eq!(BoardError::Occupied(Position::new(0, 17)).message(), "position already occupied: (0, 17)");
}

#[test]
fn refused_stones_change_nothing() {
    let mut board = Board::new();
    board.place(Position::new(4, 4), Piece::White).unwrap();
    let before = board.clone();
    assert!(board.place(Position::new(4, 4), Piece::Black).is_err());
    assert!(board.place(Position::new(4, 18), Piece::Black).is_err());
    assert_eq!(board, before);
}

#[test]
fn undoing_a_free_cell_changes_nothing() {
    let mut board = Board::new();
    board.place(Position::new(4, 4), Piece::White).unwrap();
    let before = board.clone();
    board.undo(Position::new(4, 5));
    assert_eq!(board, before);
}

#[test]
fn candidates_are_found_stone_by_stone_without_repetition() {
    let mut board = Board::new();
    board.place(Position::new(0, 0), Piece::Black).unwrap();
    board.place(Position::new(0, 2), Piece::White).unwrap();
    let candidates = board.candidate_positions();
    let expected = vec![
        (0, 1), (1, 0), (1, 1), (1, 2), (2, 0), (2, 1), (2, 2), (0, 3), (0, 4), (1, 3), (1, 4), (2, 3), (2, 4),
    ];
    let found: Vec<(usize, usize)> = candidates.iter().map(|p| (p.row, p.column)).collect();
    assert_eq!(found, expected);
}

#[test]
fn a_full_board_has_no_candidates() {
    let mut board = Board::new();
    for p in board.iter_positions() {
        // Pairs of rows in colours that never make five in a row.
        let piece = if (p.row / 2 + p.column) % 2 == 0 { Piece::Black } else { Piece::White };
        board.place(p, piece).unwrap();
    }
    assert_eq!(board.move_count(), 324);
    assert!(board.candidate_positions().is_empty());
    assert_eq!(board.evaluate_for(Piece::Black), 0);
}

#[test]
fn more_than_five_wins_too() {
    let mut board = Board::new();
    for c in [0usize, 1, 2, 4, 5, 6] {
        board.place(Position::new(3, c), Piece::White).unwrap();
    }
    assert!(board.would_win(Position::new(3, 3), Piece::White));
    assert_eq!(board.first_winning_move(Piece::White), Some(Position::new(3, 3)));
    assert!(board.has_winning_move(Piece::White));
    assert!(!board.has_winning_move(Piece::Black));
}

#[test]
fn winning_moves_are_counted_up_to_a_cap() {
    let mut board = Board::new();
    for c in 5..9 {
        board.place(Position::new(3, c), Piece::White).unwrap();
    }
    assert_eq!(board.count_winning_moves_up_to(Piece::White, 0), 0);
    assert_eq!(board.count_winning_moves_up_to(Piece::White, 1), 1);
    assert_eq!(board.count_winning_moves_up_to(Piece::White, 9), 2);
}

#[test]
fn evaluation_sums_the_three_best_scores() {
    let board = Board::new();
    assert_eq!(board.evaluate_for(Piece::Black), 80);
    let mut board = Board::new();
    board.place(Position::new(9, 9), Piece::Black).unwrap();
    let mut scores: Vec<i32> =
        board.candidate_positions().iter().map(|&p| board.score_move(p, Piece::Black)).collect();
    scores.sort();
    let best: i32 = scores.iter().rev().take(3).sum();
    assert_eq!(board.evaluate_for(Piece::Black), best);
    assert_eq!(board.evaluate_for_candidates(Piece::Black, &[]), 0);
}
