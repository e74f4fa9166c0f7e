//! Positions out of games.
use std::sync::atomic::AtomicBool;
use std::time::{Duration, Instant};

use gomoku::board::{Board, Move, Piece, Position, SCORE_OPEN_THREE};
use gomoku::game::GameSnapshot;
use gomoku::strategy::{
    position_score, SearchStrategy, StrategyRouter, TacticalStrategy, VcfStrategy,
};

fn board_of(moves: &[(usize, usize, Piece)]) -> Board {
    let mut board = Board::new();
    for &(row, column, color) in moves {
        board.apply_move(Move { row, column, color }).unwrap();
    }
    board
}

fn search(snapshot: &GameSnapshot, ms: u64) -> Option<(Position, i32, String)> {
    let cancel = AtomicBool::new(false);
    let mut strategy = SearchStrategy::default();
    strategy.search_timed(
        snapshot,
        Instant::now() + Duration::from_millis(ms),
        &cancel,
        |pos, score, reason, depth, _| {
            println!("  [depth {depth}] ({},{}) score={score} reason={reason}", pos.row, pos.column);
        },
    )
}

#[test]
fn open_three_missed_block_diagnosis() {
    let board = board_of(&[
        (8, 8, Piece::Black),
        (9, 9, Piece::White),
        (8, 9, Piece::Black),
        (9, 8, Piece::White),
        (9, 10, Piece::Black),
        (8, 10, Piece::White),
        (10, 8, Piece::Black),
        (7, 11, Piece::White),
        (9, 7, Piece::Black),
        (10, 11, Piece::White),
        (8, 6, Piece::Black),
    ]);
    let snapshot = GameSnapshot::new(board.clone(), Piece::White, Piece::White);
    let candidates = board.candidate_positions();

    // Black's diagonal can be extended at both ends; White has a diagonal of its own.
    let threat_lo = Position::new(7, 5);
    let threat_hi = Position::new(11, 9);
    let white_four = Position::new(6, 12);

    let score_threat_lo_black = board.score_move(threat_lo, Piece::Black);
    let score_threat_hi_black = board.score_move(threat_hi, Piece::Black);
    let score_white_four = board.score_move(white_four, Piece::White);
    println!("{score_threat_lo_black} {score_threat_hi_black} {score_white_four}");

    let best_self = candidates
        .iter()
        .map(|&p| board.score_move(p, Piece::White))
        .max()
        .unwrap_or(0);
    let open_four_threats: Vec<Position> = candidates
        .iter()
        .copied()
        .filter(|&p| board.score_move(p, Piece::Black) >= 100_000)
        .collect();
    println!("open-four threat squares: {open_four_threats:?}");

    let tactical = TacticalStrategy::analyze(&snapshot);
    let result = search(&snapshot, 5_000);
    println!("search: {result:?}");

    assert!(
        score_threat_lo_black >= 100_000,
        "(7,5) must score >= 100 000 as Black (open four), got {score_threat_lo_black}"
    );
    assert!(
        score_threat_hi_black >= 100_000,
        "(11,9) must score >= 100 000 as Black (open four), got {score_threat_hi_black}"
    );
    let tactical_pick = tactical.map(|(p, _, _)| p);
    assert!(
        tactical_pick == Some(threat_lo) || tactical_pick == Some(threat_hi),
        "TacticalStrategy must block (7,5) or (11,9), but picked {:?}",
        tactical_pick
    );
    assert!(
        best_self < 100_000,
        "best_self {best_self} should be < 100 000 so the open-four block fires"
    );
    assert_eq!(score_white_four, 25_063);
    assert_eq!(open_four_threats, vec![threat_lo, threat_hi]);
}

#[test]
fn open_four_missed_col6_diagnosis() {
    let board = board_of(&[
        (8, 8, Piece::Black),
        (8, 10, Piece::White),
        (8, 6, Piece::Black),
        (8, 7, Piece::White),
        (9, 5, Piece::Black),
        (7, 7, Piece::White),
        (9, 7, Piece::Black),
        (6, 7, Piece::White),
        (9, 6, Piece::Black),
        (9, 8, Piece::White),
        (10, 6, Piece::Black),
        (7, 9, Piece::White),
    ]);
    let snapshot = GameSnapshot::new(board.clone(), Piece::Black, Piece::Black);
    let candidates = board.candidate_positions();
    assert_eq!(board.move_count(), 12);

    let p_76 = Position::new(7, 6);
    let p_116 = Position::new(11, 6);
    let p_66 = Position::new(6, 6);
    for pos in [p_76, p_116, p_66] {
        let mine = board.score_move(pos, Piece::Black);
        let theirs = board.score_move(pos, Piece::White);
        let ps = position_score(&snapshot, pos);
        println!("{pos:?} black={mine} white={theirs} position_score={ps}");
        assert!(candidates.contains(&pos));
        assert_eq!(ps, if mine >= theirs { 2 * mine + theirs } else { 2 * theirs + mine });
        let mut b = board.clone();
        b.place(pos, Piece::Black).unwrap();
        println!("winning_moves = {:?}", b.winning_moves(Piece::Black));
    }

    let insight = board.inspect(Piece::Black);
    assert_eq!(insight.self_winning_moves, 0);
    assert_eq!(insight.opponent_winning_moves, 0);
    println!("{insight:?}");

    // An open four in the column wins by force, and every strategy sees it.
    assert!(board.score_move(p_76, Piece::Black) >= 100_000);
    assert!(board.score_move(p_116, Piece::Black) >= 100_000);
    let tactical = TacticalStrategy::analyze(&snapshot);
    println!("tactical: {tactical:?}");
    let router_plan = StrategyRouter::default().pick(&snapshot);
    println!("router: {router_plan:?}");
    let mut b = board.clone();
    let vcf_mv = VcfStrategy::find_win(&mut b, Piece::Black, 40);
    assert!(vcf_mv == Some(p_76) || vcf_mv == Some(p_116), "got {vcf_mv:?}");
    let result = search(&snapshot, 2_000);
    assert_eq!(result.map(|(p, _, _)| p), vcf_mv);
}

fn move5_board() -> Board {
    board_of(&[
        (8, 8, Piece::Black),
        (8, 10, Piece::White),
        (8, 6, Piece::Black),
        (8, 7, Piece::White),
        (9, 5, Piece::Black),
        (7, 7, Piece::White),
        (9, 7, Piece::Black),
    ])
}

#[test]
fn move5_white_missed_block_diagnosis() {
    let board = move5_board();
    let snapshot = GameSnapshot::new(board.clone(), Piece::White, Piece::White);
    let candidates = board.candidate_positions();
    assert_eq!(board.move_count(), 7);

    let p_actual = Position::new(6, 7);
    let p_96 = Position::new(9, 6);
    let p_106 = Position::new(10, 6);
    let p_79 = Position::new(7, 9);
    for pos in [p_actual, p_96, p_106, p_79] {
        let mine = board.score_move(pos, Piece::White);
        let theirs = board.score_move(pos, Piece::Black);
        let ps = position_score(&snapshot, pos);
        println!("{pos:?} white={mine} black={theirs} position_score={ps} {}", candidates.contains(&pos));
    }

    // Between its two stones Black makes an open three.
    assert!(board.score_move(p_96, Piece::Black) >= SCORE_OPEN_THREE);
    let mut after = board.clone();
    after.place(p_96, Piece::Black).unwrap();
    assert!(after.winning_moves(Piece::Black).is_empty());

    println!("{:?}", board.inspect(Piece::White));
    println!("tactical: {:?}", TacticalStrategy::analyze(&snapshot));
    println!("router: {:?}", StrategyRouter::default().pick(&snapshot));
    for pos in [p_actual, p_96] {
        let mut b = board.clone();
        b.place(pos, Piece::White).unwrap();
        println!("after {pos:?}: {} {}", b.evaluate_for(Piece::Black), b.evaluate_for(Piece::White));
    }

    assert!(search(&snapshot, 50).is_some());
    assert!(search(&snapshot, 2_000).is_some());
}

#[test]
fn move5_white_defends_black_open_three_threats() {
    let board = move5_board();
    let snapshot = GameSnapshot::new(board.clone(), Piece::White, Piece::White);
    let candidates = board.candidate_positions();

    let threat_positions: Vec<Position> = candidates
        .iter()
        .copied()
        .filter(|&p| board.score_move(p, Piece::Black) >= SCORE_OPEN_THREE)
        .collect();
    println!("tactical: {:?}", TacticalStrategy::analyze(&snapshot));
    println!("router: {:?}", StrategyRouter::default().pick(&snapshot));

    let white_pick = search(&snapshot, 500).map(|(p, _, _)| p).expect("SearchStrategy must return a move");

    assert!(
        !threat_positions.is_empty(),
        "there must be at least one Black open-three threat at move 5"
    );
    assert!(
        threat_positions.contains(&white_pick),
        "White must block one of Black's {} open-three threats at move 5\n\
         White played: ({},{})\n\
         Threat squares: {:?}",
        threat_positions.len(),
        white_pick.row,
        white_pick.column,
        threat_positions,
    );
}
