use std::sync::atomic::AtomicBool;
use std::time::{Duration, Instant};

use gomoku::board::{Board, Move, Piece, Position, CENTER};
use gomoku::game::GameSnapshot;
use gomoku::strategy::{
    PatternStrategy, SearchStrategy, StrategyRouter, TacticalStrategy, VcfStrategy, VctStrategy,
};

fn snap(board: Board, color: Piece) -> GameSnapshot {
    GameSnapshot::new(board, color, color)
}

fn deadline_ms(ms: u64) -> Instant {
    Instant::now() + Duration::from_millis(ms)
}

#[test]
fn tactical_plays_winning_move() {
    let mut board = Board::new();
    for c in 0..4 {
        board.place(Position::new(5, c), Piece::Black).unwrap();
    }
    let (pos, _, _) = TacticalStrategy::analyze(&snap(board, Piece::Black)).unwrap();
    assert_eq!(pos, Position::new(5, 4));
}

#[test]
fn tactical_blocks_opponent_win() {
    let mut board = Board::new();
    for c in 0..4 {
        board.place(Position::new(5, c), Piece::White).unwrap();
    }
    let (pos, _, _) = TacticalStrategy::analyze(&snap(board, Piece::Black)).unwrap();
    assert_eq!(pos, Position::new(5, 4));
}

#[test]
fn tactical_blocks_vertical_win() {
    let mut board = Board::new();
    for r in 0..4 {
        board.place(Position::new(r, 5), Piece::White).unwrap();
    }
    let (pos, _, _) = TacticalStrategy::analyze(&snap(board, Piece::Black)).unwrap();
    assert_eq!(pos, Position::new(4, 5));
}

#[test]
fn tactical_blocks_diagonal_win() {
    let mut board = Board::new();
    for i in 0..4 {
        board.place(Position::new(3 + i, 3 + i), Piece::White).unwrap();
    }
    let (pos, _, _) = TacticalStrategy::analyze(&snap(board, Piece::Black)).unwrap();
    assert!(
        pos == Position::new(7, 7) || pos == Position::new(2, 2),
        "expected blocking move at (7,7) or (2,2), got {pos:?}"
    );
}

#[test]
fn router_prefers_tactical_when_threats_exist() {
    let mut board = Board::new();
    for c in 0..4 {
        board.place(Position::new(5, c), Piece::Black).unwrap();
    }
    let plan = StrategyRouter::default().pick(&snap(board, Piece::Black)).unwrap();
    assert_eq!(plan.position, Position::new(5, 4));
    assert_eq!(plan.strategy.label(), "tactical");
}

#[test]
fn router_finds_blocking_move_via_tactical() {
    let mut board = Board::new();
    for c in 0..4 {
        board.place(Position::new(5, c), Piece::White).unwrap();
    }
    let plan = StrategyRouter::default().pick(&snap(board, Piece::Black)).unwrap();
    assert_eq!(plan.position, Position::new(5, 4));
}

#[test]
fn vcf_finds_immediate_five() {
    let mut board = Board::new();
    for c in 1..=4 {
        board.place(Position::new(5, c), Piece::Black).unwrap();
    }
    let mv = VcfStrategy::find_win(&mut board, Piece::Black, 40);
    assert!(
        mv == Some(Position::new(5, 0)) || mv == Some(Position::new(5, 5)),
        "expected winning move at one end, got {mv:?}"
    );
}

#[test]
fn vcf_detects_open_four_double_threat() {
    let mut board = Board::new();
    for c in 1..=3 {
        board.place(Position::new(5, c), Piece::Black).unwrap();
    }
    let mv = VcfStrategy::find_win(&mut board, Piece::Black, 40);
    assert!(mv.is_some(), "VCF must find forced win via open-four double threat");
}

#[test]
fn vcf_two_step_forced_win() {
    let mut board = Board::new();
    for c in 0..3 {
        board.place(Position::new(5, c), Piece::Black).unwrap();
    }
    for r in 8..=10 {
        board.place(Position::new(r, 0), Piece::Black).unwrap();
    }
    let mv = VcfStrategy::find_win(&mut board, Piece::Black, 40);
    assert!(mv.is_some(), "VCF must find a two-step forced win");
}

#[test]
fn vcf_returns_none_for_no_forced_win() {
    let mut board = Board::new();
    board.place(Position::new(9, 9), Piece::Black).unwrap();
    board.place(Position::new(9, 10), Piece::Black).unwrap();
    let mv = VcfStrategy::find_win(&mut board, Piece::Black, 40);
    assert!(mv.is_none(), "two stones should not constitute a forced VCF win");
}

#[test]
fn vcf_choose_blocks_opponent_forced_win() {
    let mut board = Board::new();
    for c in 0..4 {
        board.place(Position::new(5, c), Piece::White).unwrap();
    }
    let (mv, score, reason) = VcfStrategy::pick(&snap(board, Piece::Black)).unwrap();
    assert_eq!(mv, Position::new(5, 4), "must block White's winning threat");
    assert!(score >= 800_000, "blocking score should be high: {score}");
    assert!(reason.contains("block"), "reason should mention block: {reason}");
}

#[test]
fn vcf_choose_prefers_own_win_over_block() {
    let mut board = Board::new();
    for c in 0..4 {
        board.place(Position::new(5, c), Piece::Black).unwrap();
    }
    for c in 0..4 {
        board.place(Position::new(6, c), Piece::White).unwrap();
    }
    let (_, score, reason) = VcfStrategy::pick(&snap(board, Piece::Black)).unwrap();
    assert!(score >= 900_000, "own win should score >= 900 000, got {score}");
    assert!(reason.contains("win"), "reason should mention win: {reason}");
}

#[test]
fn vct_detects_double_four_fork() {
    let mut board = Board::new();
    for c in 6..=8 {
        board.place(Position::new(5, c), Piece::Black).unwrap();
    }
    for r in 6..=8 {
        board.place(Position::new(r, 5), Piece::Black).unwrap();
    }
    let mv = VctStrategy::find_win(&mut board, Piece::Black, 30);
    assert_eq!(mv, Some(Position::new(5, 5)), "VCT must find double-four fork at (5,5)");
}

#[test]
fn vct_finds_vcf_win_via_fast_path() {
    let mut board = Board::new();
    for c in 1..=4 {
        board.place(Position::new(5, c), Piece::Black).unwrap();
    }
    let mv = VctStrategy::find_win(&mut board, Piece::Black, 30);
    assert!(mv.is_some(), "VCT fast-path must find the VCF win");
}

#[test]
fn gap_broken_four_scores_as_must_block() {
    let mut board = Board::new();
    for c in 0..3 {
        board.place(Position::new(5, c), Piece::White).unwrap();
    }
    let score = board.score_move(Position::new(5, 4), Piece::White);
    assert!(
        score >= 25_000,
        "X X X . P must score >= 25 000 (gap broken-four), got {score}"
    );
}

#[test]
fn gap_broken_four_symmetric() {
    let mut board = Board::new();
    for c in 2..=4 {
        board.place(Position::new(5, c), Piece::White).unwrap();
    }
    let score = board.score_move(Position::new(5, 0), Piece::White);
    assert!(
        score >= 25_000,
        "P . X X X must score >= 25 000 (gap broken-four), got {score}"
    );
}

#[test]
fn gap_broken_four_double_side() {
    let mut board = Board::new();
    for c in [0usize, 1, 5, 6] {
        board.place(Position::new(5, c), Piece::White).unwrap();
    }
    let score = board.score_move(Position::new(5, 3), Piece::White);
    assert!(
        score >= 25_000,
        "X X . P . X X must score >= 25 000, got {score}"
    );
}

#[test]
fn gap_two_stones_no_inflation() {
    let mut board = Board::new();
    for c in 0..2 {
        board.place(Position::new(5, c), Piece::White).unwrap();
    }
    let score = board.score_move(Position::new(5, 3), Piece::White);
    assert!(
        score < 25_000,
        "X X . P must NOT reach must-block threshold, got {score}"
    );
}

#[test]
fn pattern_returns_center_on_empty_board() {
    let board = Board::new();
    let snapshot = snap(board, Piece::Black);
    let (pos, _, _) = PatternStrategy::pick(&snapshot).unwrap();
    assert_eq!(pos, Position::new(CENTER, CENTER));
}

#[test]
fn pattern_does_not_return_occupied_cell() {
    let mut board = Board::new();
    board.place(Position::new(9, 9), Piece::Black).unwrap();
    let snapshot = snap(board.clone(), Piece::White);
    let (pos, _, _) = PatternStrategy::pick(&snapshot).unwrap();
    assert!(board.is_empty_at(pos), "pattern must not return an occupied cell");
}

#[test]
fn pattern_prefers_extension_of_existing_stones() {
    let mut board = Board::new();
    board.place(Position::new(9, 8), Piece::Black).unwrap();
    board.place(Position::new(9, 9), Piece::Black).unwrap();
    let snapshot = snap(board, Piece::Black);
    let (_, score, _) = PatternStrategy::pick(&snapshot).unwrap();
    assert!(score >= 250, "pattern score for extending two in a row should be >= 250, got {score}");
}

#[test]
fn tactical_returns_none_on_empty_board() {
    let board = Board::new();
    let snapshot = snap(board, Piece::Black);
    let _ = TacticalStrategy::analyze(&snapshot);
}

#[test]
fn tactical_plays_own_five_in_a_row_over_block() {
    let mut board = Board::new();
    for c in 0..4 {
        board.place(Position::new(5, c), Piece::Black).unwrap();
    }
    for c in 0..4 {
        board.place(Position::new(6, c), Piece::White).unwrap();
    }
    let (pos, _, reason) = TacticalStrategy::analyze(&snap(board, Piece::Black)).unwrap();
    assert_eq!(pos, Position::new(5, 4));
    assert!(reason.contains("winning"), "reason should mention winning, got: {reason}");
}

#[test]
fn tactical_blocks_opponent_open_four_when_no_own_open_four() {
    let mut board = Board::new();
    for c in 2..6 {
        board.place(Position::new(5, c), Piece::White).unwrap();
    }
    let (_, _, reason) = TacticalStrategy::analyze(&snap(board, Piece::Black)).unwrap();
    assert!(
        reason.contains("block") || reason.contains("open four"),
        "reason should indicate blocking, got: {reason}"
    );
}

#[test]
fn vcf_does_not_panic_at_max_depth() {
    let mut board = Board::new();
    board.place(Position::new(9, 9), Piece::Black).unwrap();
    let mv = VcfStrategy::find_win(&mut board, Piece::Black, 0);
    assert!(mv.is_none());
}

#[test]
fn vcf_find_win_returns_none_for_isolated_stone() {
    let mut board = Board::new();
    board.place(Position::new(9, 9), Piece::Black).unwrap();
    assert!(VcfStrategy::find_win(&mut board, Piece::Black, 40).is_none());
}

#[test]
fn vct_returns_none_for_quiet_position() {
    let mut board = Board::new();
    board.place(Position::new(9, 9), Piece::Black).unwrap();
    board.place(Position::new(9, 10), Piece::Black).unwrap();
    let mv = VctStrategy::find_win(&mut board, Piece::Black, 30);
    assert!(mv.is_none(), "two stones should not be a VCT win");
}

#[test]
fn vct_subsumes_vcf_for_four_in_a_row() {
    let mut board = Board::new();
    for c in 1..=4 {
        board.place(Position::new(7, c), Piece::Black).unwrap();
    }
    let mv = VctStrategy::find_win(&mut board, Piece::Black, 30);
    assert!(mv.is_some(), "VCT must find an immediate VCF win (four-in-a-row)");
}

#[test]
fn vct_find_win_handles_zero_max_depth() {
    let mut board = Board::new();
    board.place(Position::new(9, 9), Piece::Black).unwrap();
    let _ = VctStrategy::find_win(&mut board, Piece::Black, 0);
}

#[test]
fn router_uses_pattern_in_opening_phase() {
    let mut board = Board::new();
    board.place(Position::new(9, 9), Piece::Black).unwrap();
    board.place(Position::new(9, 10), Piece::White).unwrap();
    let plan = StrategyRouter::default().pick(&snap(board, Piece::Black)).unwrap();
    assert_eq!(plan.strategy.label(), "pattern", "router must pick pattern in opening (< 4 moves)");
}

#[test]
fn router_blocks_opponent_win_via_tactical() {
    let mut board = Board::new();
    for c in 0..4 {
        board.place(Position::new(5, c), Piece::White).unwrap();
    }
    let plan = StrategyRouter::default().pick(&snap(board, Piece::Black)).unwrap();
    assert_eq!(plan.position, Position::new(5, 4));
}

#[test]
fn router_uses_search_on_narrow_board() {
    let mut board = Board::new();
    let positions = [
        (1,1),(1,3),(1,5),
        (3,1),(3,3),(3,5),
        (5,1),(5,3),(5,5),
    ];
    for (i, &(r, c)) in positions.iter().enumerate() {
        let piece = if i % 2 == 0 { Piece::Black } else { Piece::White };
        board.place(Position::new(r, c), piece).unwrap();
    }
    let insight = board.inspect(Piece::Black);
    if insight.candidate_count <= 8 && insight.self_winning_moves == 0 && insight.opponent_winning_moves == 0
        && insight.best_self_score < 50_000 && insight.best_opponent_score < 50_000 {
        let plan = StrategyRouter::default().pick(&snap(board, Piece::Black));
        assert!(plan.is_some(), "router must return a move even on a narrow board");
    }
}

#[test]
fn search_returns_move_on_near_empty_board() {
    let mut board = Board::new();
    board.place(Position::new(9, 9), Piece::Black).unwrap();
    let cancel = AtomicBool::new(false);
    let mut strategy = SearchStrategy::default();
    let result = strategy.search_timed(&snap(board, Piece::White), deadline_ms(500), &cancel, |_, _, _, _, _| {});
    assert!(result.is_some(), "search must return a move on a near-empty board");
}

#[test]
fn search_respects_deadline_and_returns_before_overrun() {
    let mut board = Board::new();
    for c in 3..7 {
        board.place(Position::new(9, c), Piece::Black).unwrap();
        board.place(Position::new(10, c), Piece::White).unwrap();
    }
    let cancel = AtomicBool::new(false);
    let mut strategy = SearchStrategy::default();
    let start = Instant::now();
    let _result = strategy.search_timed(&snap(board, Piece::Black), deadline_ms(200), &cancel, |_, _, _, _, _| {});
    assert!(
        start.elapsed() < Duration::from_millis(700),
        "search must not massively overrun deadline, took {:?}",
        start.elapsed()
    );
}

#[test]
fn search_on_depth_callback_called_at_least_once_for_solved_position() {
    let mut board = Board::new();
    for c in 0..4 {
        board.place(Position::new(5, c), Piece::Black).unwrap();
    }
    let cancel = AtomicBool::new(false);
    let mut strategy = SearchStrategy::default();
    let result = strategy.search_timed(
        &snap(board, Piece::Black),
        deadline_ms(500),
        &cancel,
        |_, _, _, _, _| {},
    );
    assert!(result.is_some(), "search must return a move for a solved position");
    let (pos, _, _) = result.unwrap();
    assert_eq!(pos, Position::new(5, 4));
}

#[test]
fn search_vcf_precheck_finds_win() {
    let mut board = Board::new();
    for c in 0..4 {
        board.place(Position::new(5, c), Piece::Black).unwrap();
    }
    let cancel = AtomicBool::new(false);
    let start = Instant::now();
    let mut strategy = SearchStrategy::default();
    let (pos, _, _) = strategy
        .search_timed(&snap(board, Piece::Black), deadline_ms(500), &cancel, |_, _, _, _, _| {})
        .unwrap();
    assert_eq!(pos, Position::new(5, 4));
    assert!(
        start.elapsed() < Duration::from_millis(300),
        "VCF pre-check should return fast, took {:?}",
        start.elapsed()
    );
}

#[test]
fn search_blocks_opponent_win() {
    let mut board = Board::new();
    for c in 0..4 {
        board.place(Position::new(5, c), Piece::White).unwrap();
    }
    let cancel = AtomicBool::new(false);
    let mut strategy = SearchStrategy::default();
    let (pos, _, _) = strategy
        .search_timed(&snap(board, Piece::Black), deadline_ms(500), &cancel, |_, _, _, _, _| {})
        .unwrap();
    assert_eq!(pos, Position::new(5, 4));
}

#[test]
fn search_persistent_tt_reuses_cache() {
    let mut board = Board::new();
    for c in 3..7 {
        board.place(Position::new(9, c), Piece::Black).unwrap();
    }
    for c in 3..7 {
        board.place(Position::new(10, c), Piece::White).unwrap();
    }
    let cancel = AtomicBool::new(false);
    let mut strategy = SearchStrategy::default();
    let snap = snap(board, Piece::Black);

    let first = strategy.search_timed(&snap, deadline_ms(200), &cancel, |_, _, _, _, _| {});
    let second = strategy.search_timed(&snap, deadline_ms(200), &cancel, |_, _, _, _, _| {});

    assert!(first.is_some() && second.is_some(), "both calls must return a move");
    assert_eq!(
        first.unwrap().0,
        second.unwrap().0,
        "same position should yield same best move across calls"
    );
}

#[test]
fn search_uses_most_of_time_budget() {
    let mut board = Board::new();
    for (r, c, color) in [
        (8, 8, Piece::Black), (8, 10, Piece::White), (8, 6, Piece::Black),
        (8, 7, Piece::White), (9, 5, Piece::Black), (7, 7, Piece::White), (9, 7, Piece::Black),
    ] {
        board.apply_move(Move { row: r, column: c, color }).unwrap();
    }

    let budget_ms = 500u64;
    let start = Instant::now();
    let cancel = AtomicBool::new(false);
    let mut strategy = SearchStrategy::default();
    let mut max_depth_reached = 0usize;
    let result = strategy.search_timed(
        &snap(board, Piece::White),
        Instant::now() + Duration::from_millis(budget_ms),
        &cancel,
        |_, _, _, depth, _| { max_depth_reached = max_depth_reached.max(depth); },
    );
    let elapsed = start.elapsed().as_millis() as u64;

    assert!(result.is_some(), "must return a move");
    assert!(
        max_depth_reached >= 2,
        "must reach at least depth 2, only reached depth {max_depth_reached} in {elapsed}ms"
    );
    assert!(
        elapsed >= budget_ms * 4 / 5,
        "must use at least 80% of the {budget_ms}ms budget (used {elapsed}ms, depth {max_depth_reached})"
    );
    assert!(
        elapsed <= budget_ms + 200,
        "must not overrun deadline by more than 200ms (budget {budget_ms}ms, elapsed {elapsed}ms)"
    );
}

#[test]
fn search_vcf_precheck_respects_main_deadline() {
    let mut board = Board::new();
    for (r, c, color) in [
        (8, 8, Piece::Black), (8, 10, Piece::White), (8, 6, Piece::Black),
        (8, 7, Piece::White), (9, 5, Piece::Black), (7, 7, Piece::White), (9, 7, Piece::Black),
    ] {
        board.apply_move(Move { row: r, column: c, color }).unwrap();
    }

    let budget_ms = 60u64;
    let start = Instant::now();
    let cancel = AtomicBool::new(false);
    let mut strategy = SearchStrategy::default();
    let result = strategy.search_timed(
        &snap(board, Piece::White),
        Instant::now() + Duration::from_millis(budget_ms),
        &cancel,
        |_, _, _, _, _| {},
    );
    let elapsed = start.elapsed().as_millis() as u64;

    assert!(result.is_some(), "must return a move even with tight budget");
    assert!(
        elapsed <= budget_ms + 100,
        "VCF pre-check must not overrun main deadline (budget {budget_ms}ms, elapsed {elapsed}ms)"
    );
}

