use std::sync::atomic::{AtomicBool, Ordering};
use std::time::{Duration, Instant};

use gomoku::board::{Board, Piece, Position};
use gomoku::config::StrategyChoice;
use gomoku::engine::{DecisionEngine, DecisionPlan};
use gomoku::game::{GameSnapshot, SessionContext};
use gomoku::selection::{
    board_after, check_ponder_hit, final_plan, ponder_budget, predict, search_budget, timed_select, Prediction,
};
use gomoku::strategy::search::leaf_value;
use gomoku::strategy::{
    adaptive_inner_limit, position_score, threat_candidates, FrontierStrategy, PatternStrategy, SearchStrategy, Strategy, StrategyKind,
    StrategyRouter, TacticalStrategy, VcfStrategy, VctStrategy,
};

fn board_of(black: &[(usize, usize)], white: &[(usize, usize)]) -> Board {
    let mut board = Board::new();
    for &(r, c) in black {
        board.place(Position::new(r, c), Piece::Black).unwrap();
    }
    for &(r, c) in white {
        board.place(Position::new(r, c), Piece::White).unwrap();
    }
    board
}

fn game(black: &[(usize, usize)], white: &[(usize, usize)]) -> GameSnapshot {
    GameSnapshot::new(board_of(black, white), Piece::Black, Piece::Black)
}

fn select(snapshot: &GameSnapshot, choice: StrategyChoice) -> Option<DecisionPlan> {
    let cancel = AtomicBool::new(false);
    let mut searcher = SearchStrategy::default();
    let deadline = Instant::now() + Duration::from_millis(150);
    timed_select(snapshot, choice, deadline, &cancel, &mut searcher, |_, _, _, _, _| {})
}

#[test]
fn budgets_keep_a_buffer() {
    assert_eq!(search_budget(5_000, 0), 4_700);
    assert_eq!(search_budget(5_000, 1_200), 3_500);
    assert_eq!(search_budget(5_000, 4_699), 1);
    assert_eq!(search_budget(5_000, 4_698), 2);
    assert_eq!(search_budget(5_000, 99_999), 1);
    assert_eq!(search_budget(0, 0), 1);
    assert_eq!(ponder_budget(5_000), 4_500);
    assert_eq!(ponder_budget(15), 13);
}

#[test]
fn the_adaptive_strategy_wins_first() {
    let g = game(&[(5, 0), (5, 1), (5, 2), (5, 3)], &[(6, 0), (6, 1), (6, 2), (6, 3)]);
    let plan = select(&g, StrategyChoice::Adaptive).unwrap();
    assert_eq!(plan.position, Position::new(5, 4));
    assert_eq!((plan.strategy, plan.reason.as_str()), (StrategyKind::Tactical, "win"));
    assert_eq!(plan.score, g.board.score_move(plan.position, Piece::Black));
}

#[test]
fn the_adaptive_strategy_blocks_next() {
    let g = game(&[(0, 17)], &[(6, 0), (6, 1), (6, 2), (6, 3)]);
    let plan = select(&g, StrategyChoice::Adaptive).unwrap();
    assert_eq!(plan.position, Position::new(6, 4));
    assert_eq!((plan.strategy, plan.reason.as_str()), (StrategyKind::Tactical, "block"));
}

#[test]
fn the_adaptive_strategy_opens_by_pattern() {
    let g = game(&[(9, 9)], &[(9, 10)]);
    let plan = select(&g, StrategyChoice::Adaptive).unwrap();
    assert_eq!((plan.strategy, plan.reason.as_str()), (StrategyKind::Pattern, ""));
    assert_eq!(Some(plan.position), PatternStrategy.select_move(&g));
}

#[test]
fn the_adaptive_strategy_blocks_open_fours() {
    let g = game(&[(0, 0), (17, 17)], &[(8, 6), (8, 7), (8, 8)]);
    let plan = select(&g, StrategyChoice::Adaptive).unwrap();
    assert_eq!((plan.strategy, plan.reason.as_str()), (StrategyKind::Tactical, "block open four"));
    assert!(plan.position == Position::new(8, 5) || plan.position == Position::new(8, 9));
}

#[test]
fn the_adaptive_strategy_searches_otherwise() {
    let g = game(&[(8, 8), (9, 9)], &[(8, 9), (9, 8)]);
    let plan = select(&g, StrategyChoice::Adaptive).unwrap();
    assert_eq!(plan.strategy, StrategyKind::Search);
    assert!(g.board.is_empty_at(plan.position));
}

#[test]
fn forced_strategies_fall_back_to_pattern() {
    let quiet = game(&[(8, 8)], &[(8, 9)]);
    for (choice, reason) in [(StrategyChoice::Vcf, "vcf-fallback"), (StrategyChoice::Vct, "vct-fallback")] {
        let plan = select(&quiet, choice).unwrap();
        assert_eq!((plan.strategy, plan.reason.as_str()), (StrategyKind::Pattern, reason));
    }
    let won = game(&[(5, 0), (5, 1), (5, 2), (5, 3)], &[]);
    let plan = select(&won, StrategyChoice::Vcf).unwrap();
    assert_eq!((plan.strategy, plan.score, plan.reason.as_str()), (StrategyKind::Vcf, 900_000, "vcf forced win"));
    assert_eq!(select(&won, StrategyChoice::Vct).unwrap().strategy, StrategyKind::Vct);
    assert_eq!(select(&won, StrategyChoice::Search).unwrap().strategy, StrategyKind::Search);
}

#[test]
fn plain_strategies_give_no_reason() {
    let g = game(&[(8, 8)], &[(8, 9)]);
    let tactical = select(&g, StrategyChoice::Tactical).unwrap();
    assert_eq!((tactical.strategy, tactical.reason.as_str()), (StrategyKind::Tactical, ""));
    assert_eq!(Some(tactical.position), TacticalStrategy.select_move(&g));
    let pattern = select(&g, StrategyChoice::Pattern).unwrap();
    assert_eq!((pattern.strategy, pattern.reason.as_str()), (StrategyKind::Pattern, ""));
    assert_eq!(pattern.score, g.board.score_move(pattern.position, Piece::Black));
}

#[test]
fn a_full_board_leaves_no_move() {
    let mut board = Board::new();
    for p in board.iter_positions() {
        let piece = if (p.row / 2 + p.column) % 2 == 0 { Piece::Black } else { Piece::White };
        board.place(p, piece).unwrap();
    }
    let g = GameSnapshot::new(board.clone(), Piece::Black, Piece::Black);
    for choice in [
        StrategyChoice::Tactical,
        StrategyChoice::Pattern,
        StrategyChoice::Adaptive,
        StrategyChoice::Vcf,
        StrategyChoice::Vct,
        StrategyChoice::Search,
    ] {
        assert_eq!(select(&g, choice), None);
    }
    assert!(DecisionEngine::default().choose_plan(&g).is_none());
    assert!(predict(&board, Piece::Black).is_none());
}

#[test]
fn expected_replies_are_recognised() {
    let board = board_of(&[(9, 9)], &[(3, 3), (3, 4), (3, 5)]);
    let (prediction, ahead) = predict(&board, Piece::Black).unwrap();
    // Both ends of the three score alike but for the centre, which (3, 6) is nearer to.
    assert_eq!(prediction.position, Position::new(3, 6));
    assert_eq!(prediction.move_count, 4);
    assert_eq!(ahead.board.get(Position::new(3, 6)), Some(Piece::White));
    assert!(ahead.is_my_turn());

    let plan = DecisionPlan {
        strategy: StrategyKind::Search,
        position: Position::new(3, 7),
        score: 1,
        reason: "ahead".to_string(),
    };
    let hit = board_after(&board, Position::new(3, 6), Piece::White);
    assert_eq!(hit, ahead.board);
    assert_eq!(check_ponder_hit(&prediction, &hit, Some(plan.clone())), Some(plan.clone()));
    assert_eq!(check_ponder_hit(&prediction, &hit, None), None);
    let miss = board_after(&board, Position::new(3, 2), Piece::White);
    assert_eq!(check_ponder_hit(&prediction, &miss, Some(plan.clone())), None);
    assert_eq!(check_ponder_hit(&prediction, &board, Some(plan.clone())), None);
    let ours = Prediction { my_color: Piece::White, ..prediction };
    assert_eq!(check_ponder_hit(&ours, &hit, Some(plan.clone())), None);
    assert_eq!(board_after(&board, Position::new(9, 9), Piece::White), board);

    let other = DecisionPlan { score: 2, ..plan.clone() };
    assert_eq!(final_plan(Some(other.clone()), Some(plan.clone())), Some(other));
    assert_eq!(final_plan(None, Some(plan.clone())), Some(plan));
}

#[test]
fn forced_wins_are_forced() {
    // Black has an open three; White's own four must be answered first.
    let mut open = board_of(&[(5, 5), (5, 6), (5, 7)], &[]);
    assert!(VcfStrategy::find_win(&mut open, Piece::Black, 40).is_some());
    let mut countered = board_of(&[(5, 5), (5, 6), (5, 7)], &[(10, 5), (10, 6), (10, 7), (10, 8)]);
    assert_eq!(VcfStrategy::find_win(&mut countered, Piece::Black, 40), None);
    let before = countered.clone();
    assert_eq!(VctStrategy::find_win(&mut countered, Piece::Black, 30), None);
    assert_eq!(countered, before);
}

#[test]
fn consecutive_threats_extend_consecutive_fours() {
    let mut board = board_of(&[(5, 1), (5, 2), (5, 3), (5, 4)], &[]);
    let four = VcfStrategy::find_win(&mut board, Piece::Black, 40);
    assert!(four.is_some());
    assert_eq!(VctStrategy::find_win(&mut board, Piece::Black, 30), four);
    let soon = Instant::now() + Duration::from_secs(5);
    assert_eq!(VcfStrategy::find_win_timed(&mut board, Piece::Black, 40, soon), four);
    assert_eq!(VctStrategy::find_win_timed(&mut board, Piece::Black, 30, soon), four);
}

#[test]
fn nothing_is_found_after_the_deadline() {
    let mut board = board_of(&[(5, 1), (5, 2), (5, 3), (5, 4)], &[]);
    let before = board.clone();
    let past = Instant::now();
    assert!(VcfStrategy::find_win(&mut board, Piece::Black, 40).is_some());
    assert_eq!(VcfStrategy::find_win_timed(&mut board, Piece::Black, 40, past), None);
    assert_eq!(VctStrategy::find_win_timed(&mut board, Piece::Black, 30, past), None);
    assert_eq!(board, before);

    // The search plays the greedy move, though a win is there.
    let g = game(&[(5, 1), (5, 2), (5, 3), (5, 4)], &[(5, 0), (9, 9), (9, 11), (11, 9)]);
    let cancel = AtomicBool::new(false);
    let mut depths: Vec<usize> = Vec::new();
    let r = SearchStrategy::default().search_timed(&g, past, &cancel, |_, _, _, depth, _| depths.push(depth));
    let (p, score, reason) = r.unwrap();
    assert!(depths.is_empty());
    assert_eq!(reason, "greedy");
    assert_eq!(score, position_score(&g, p));
    assert!(g.board.candidate_positions().into_iter().all(|q| position_score(&g, q) <= score));
}

#[test]
fn forced_wins_take_the_time_that_they_are_told() {
    // The first move makes two fours at once: one answer is enough.
    let mut open = board_of(&[(5, 5), (5, 6), (5, 7)], &[]);
    let win = VcfStrategy::find_win(&mut open, Piece::Black, 40);
    assert!(win.is_some());
    assert_eq!(VcfStrategy::find_win_told(&mut open, Piece::Black, 40, &vec![]), None);
    assert_eq!(VcfStrategy::find_win_told(&mut open, Piece::Black, 40, &vec![true, false]), None);
    assert_eq!(VcfStrategy::find_win_told(&mut open, Piece::Black, 40, &vec![false]), win);
    assert_eq!(VctStrategy::find_win_told(&mut open, Piece::Black, 30, &vec![]), None);
    assert_eq!(VctStrategy::find_win_told(&mut open, Piece::Black, 30, &vec![false, true]), win);

    // A four, its block, and a second four: the win is found just when there is time for all of it.
    let mut deep = board_of(&[(5, 5), (5, 6), (5, 7), (3, 8), (4, 8), (6, 8)], &[(5, 4), (2, 8)]);
    let win = VcfStrategy::find_win(&mut deep, Piece::Black, 40);
    assert!(win.is_some());
    let needed = (0..200).find(|&n| VcfStrategy::find_win_told(&mut deep, Piece::Black, 40, &vec![false; n]) == win);
    let needed = needed.unwrap();
    assert!(needed >= 1);
    for n in 0..needed + 3 {
        let found = VcfStrategy::find_win_told(&mut deep, Piece::Black, 40, &vec![false; n]);
        assert_eq!(found, if n >= needed { win } else { None });
    }
}

#[test]
fn strategies_have_names() {
    assert_eq!(TacticalStrategy.name(), "tactical");
    assert_eq!(PatternStrategy.name(), "pattern");
    assert_eq!(FrontierStrategy.name(), "frontier");
    assert_eq!(VcfStrategy.name(), "vcf");
    assert_eq!(VctStrategy.name(), "vct");
    assert_eq!(SearchStrategy::default().name(), "search");
    assert_eq!(DecisionEngine::default().name(), "decision-engine");
}

#[test]
fn tactical_moves_are_rated() {
    let rated = |g: &GameSnapshot| TacticalStrategy::analyze(g).unwrap();
    let (p, score, reason) = rated(&game(&[(5, 0), (5, 1), (5, 2), (5, 3)], &[]));
    assert_eq!((p, score, reason.as_str()), (Position::new(5, 4), i32::MAX / 4, "winning move"));
    let (_, score, reason) = rated(&game(&[], &[(5, 0), (5, 1), (5, 2), (5, 3)]));
    assert_eq!((score, reason.as_str()), (i32::MAX / 5, "must block opponent win"));
    let (_, score, reason) = rated(&game(&[], &[(8, 6), (8, 7), (8, 8)]));
    assert_eq!((score, reason.as_str()), (i32::MAX / 6, "block open four"));
    assert_eq!(rated(&game(&[(8, 6), (8, 7), (8, 8)], &[])).2, "open four pressure");
    assert_eq!(rated(&game(&[(8, 7), (8, 8)], &[])).2, "threat building");
    assert_eq!(rated(&game(&[], &[(8, 7), (8, 8)])).2, "block open three");
    assert_eq!(rated(&game(&[(9, 9)], &[])).2, "local tactical pressure");
}

#[test]
fn patterns_are_rated() {
    let (_, score, reason) = PatternStrategy::pick(&game(&[(9, 9)], &[])).unwrap();
    // Beside the stone, near the centre: 58 + 250 + 15 for us, twice, and 78 for the opponent.
    assert_eq!((score, reason.as_str()), (2 * 323 + 78, "positional improvement"));
    assert_eq!(PatternStrategy::pick(&game(&[(8, 7), (8, 8)], &[])).unwrap().2, "strong pattern");
}

#[test]
fn threats_come_best_first() {
    let board = board_of(&[(8, 6), (8, 7), (8, 8)], &[]);
    let threats = threat_candidates(&board, Piece::Black, 25_000);
    assert!(threats.len() >= 2);
    for pair in threats.windows(2) {
        assert!(pair[0].1 >= pair[1].1);
    }
    for (p, score) in threats {
        assert_eq!(score, board.score_move(p, Piece::Black));
    }
    assert_eq!((adaptive_inner_limit(49_999), adaptive_inner_limit(50_000)), (7, 15));
}

#[test]
fn the_engine_plays_the_demo() {
    let demo = GameSnapshot::demo();
    assert_eq!(demo.board.move_count(), 2);
    assert_eq!(demo.board.get(Position::new(9, 10)), Some(Piece::White));
    let engine = DecisionEngine::default();
    let plan = engine.choose_plan(&demo).unwrap();
    assert_eq!(plan.strategy.label(), "pattern");
    let mv = engine.choose_move(&demo).unwrap();
    assert_eq!((mv.row, mv.column, mv.color), (plan.position.row, plan.position.column, Piece::Black));
    assert_eq!(engine.select_move(&demo), Some(plan.position));
    assert_eq!(StrategyRouter::default().selected_kind(&demo), StrategyKind::Pattern);
}

#[test]
fn snapshots_take_moves() {
    let mut g = GameSnapshot::with_default_board(Piece::White, Piece::Black);
    assert!(!g.is_my_turn());
    let mv = gomoku::board::Move { row: 1, column: 1, color: Piece::White };
    g.apply_move(mv).unwrap();
    assert!(g.apply_move(mv).is_err());
    assert_eq!(g.player_turn, Piece::White);
    assert_eq!(
        SessionContext::new(true),
        SessionContext { room_name: None, is_room_owner: true, move_time_seconds: None }
    );
    let plan = DecisionPlan::new(StrategyKind::Vct, Position::new(1, 2), 3, "why");
    assert_eq!((plan.score, plan.reason.as_str()), (3, "why"));
}

#[test]
fn a_cancelled_search_still_answers() {
    let cancel = AtomicBool::new(true);
    let g = game(&[(8, 8), (9, 9)], &[(8, 9), (9, 8)]);
    let mut depths = 0;
    let mut searcher = SearchStrategy::default();
    let deadline = Instant::now() + Duration::from_secs(10);
    let r = searcher.search_timed(&g, deadline, &cancel, |_, _, _, _, _| depths += 1);
    let (p, score, reason) = r.unwrap();
    assert_eq!(depths, 0);
    assert_eq!(reason, "greedy");
    assert_eq!(score, position_score(&g, p));
    assert_eq!(Some(p), PatternStrategy.select_move(&g));
}

#[test]
fn a_search_that_is_told_the_time_is_exact() {
    let g = game(&[(8, 8), (9, 9)], &[(8, 9), (9, 8)]);
    let told = |answers: Vec<bool>| SearchStrategy::default().search_told(&g, &answers).unwrap();

    // Stopped before the first depth: the greedy move.
    for answers in [vec![], vec![false, false, true]] {
        let (p, _, reason) = told(answers);
        assert_eq!((Some(p), reason.as_str()), (PatternStrategy.select_move(&g), "greedy"));
    }

    // Two looks ahead, the first depth, and its moves with the two looks of each leaf: the best move
    // is the first whose leaf is worst for the opponent.
    let mut moves = g.board.candidate_positions();
    moves.sort_by_key(|&p| -position_score(&g, p));
    moves.truncate(15);
    let mut best: Option<(Position, i32)> = None;
    for mv in moves {
        let mut after = board_after(&g.board, mv, Piece::Black);
        let own = VcfStrategy::find_win(&mut after, Piece::White, 20);
        let theirs = if own.is_some() { None } else { VcfStrategy::find_win(&mut after, Piece::Black, 20) };
        let value = -leaf_value(&after, Piece::White, own, theirs);
        if best.map_or(true, |(_, b)| value > b) {
            best = Some((mv, value));
        }
    }
    let (p, score, reason) = told(vec![false; 48]);
    assert_eq!(Some((p, score)), best);
    assert_eq!(reason, "forced win");

    // The same answers give the same move, however long it takes.
    assert_eq!(told(vec![false; 2_000]), told(vec![false; 2_000]));
}

#[test]
fn a_search_returns_what_it_told_last() {
    let g = game(&[(8, 8), (9, 9)], &[(8, 9), (9, 8)]);
    let candidates = g.board.candidate_positions();
    let cancel = AtomicBool::new(false);
    let mut told: Vec<(Position, i32, String, usize)> = Vec::new();
    let mut searcher = SearchStrategy::default();
    let deadline = Instant::now() + Duration::from_secs(60);
    // The flag is set after the second depth, so no other one is told.
    let r = searcher.search_timed(&g, deadline, &cancel, |p, score, reason, depth, scores| {
        assert!(scores.contains(&(p, score)));
        for (i, (q, _)) in scores.iter().enumerate() {
            assert!(candidates.contains(q));
            assert!(scores[..i].iter().all(|(other, _)| other != q));
        }
        told.push((p, score, reason.to_string(), depth));
        if depth == 2 {
            cancel.store(true, Ordering::Relaxed);
        }
    });
    let depths: Vec<usize> = told.iter().map(|t| t.3).collect();
    assert_eq!(depths, vec![1, 2]);
    let last = told.pop().unwrap();
    assert_eq!(r, Some((last.0, last.1, last.2)));
}

#[test]
fn a_plan_of_the_search_keeps_its_limits() {
    let g = game(&[(8, 8), (9, 9)], &[(8, 9), (9, 8)]);
    let mut searcher = SearchStrategy::default();

    // A deadline that has come: no depth is searched, and the greedy move stands.
    let cancel = AtomicBool::new(false);
    let mut depths: Vec<usize> = Vec::new();
    let plan = timed_select(
        &g,
        StrategyChoice::Search,
        Instant::now(),
        &cancel,
        &mut searcher,
        |_, _, _, depth, _| depths.push(depth),
    );
    assert!(depths.is_empty());
    assert_eq!(plan.unwrap().reason, "greedy");

    // A deadline far away: the flag ends the search.
    let mut last: Option<(Position, i32)> = None;
    let plan = timed_select(
        &g,
        StrategyChoice::Search,
        Instant::now() + Duration::from_secs(60),
        &cancel,
        &mut searcher,
        |p, score, _, depth, _| {
            depths.push(depth);
            last = Some((p, score));
            cancel.store(depth == 1, Ordering::Relaxed);
        },
    );
    assert_eq!(depths, vec![1]);
    assert_eq!(plan.map(|plan| (plan.position, plan.score)), last);
}

#[test]
fn lines_score_alike_from_both_ends() {
    let p = Position::new(5, 9);
    for pattern in [vec![1, 2, 3], vec![2, 3, 4], vec![1, 3], vec![2, 3], vec![1]] {
        let mut left = Board::new();
        let mut right = Board::new();
        for &d in &pattern {
            left.place(Position::new(5, 9 - d), Piece::White).unwrap();
            right.place(Position::new(5, 9 + d), Piece::White).unwrap();
        }
        assert_eq!(left.score_move(p, Piece::White), right.score_move(p, Piece::White));
        for (dr, dc) in [(1, 0), (0, 1), (1, 1), (1, -1)] {
            let there = left.score_direction(p, Piece::White, dr, dc);
            assert_eq!(there, left.score_direction(p, Piece::White, -dr, -dc));
            assert_eq!(there.five_in_a_row, there.score == 1_000_000);
        }
    }
}
