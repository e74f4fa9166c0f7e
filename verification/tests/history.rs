use gomoku::board::{BoardError, Move, Piece, Position};
use gomoku::history::{
    board_from_moves_history, moves_history_string, next_turn, parse_moves_history, parse_piece, piece_name, replay,
    HistoryProblem,
};

#[test]
fn parses_initial_board_history_and_infers_next_turn() {
    let (board, next_turn, moves) = board_from_moves_history("0:Black:0:0;1:Black:17:17;2:White:17:0;3:White:0:17;4:Black:7:7;5:White:9:10;6:Black:9:8;7:White:8:9;8:Black:9:9;9:White:8:8;!").unwrap();

    assert_eq!(board.move_count(), 10);
    assert_eq!(next_turn, Piece::Black);
    assert_eq!(moves.len(), 10);
}

#[test]
fn parses_moves_history() {
    let moves = parse_moves_history("0:Black:9:9;1:White:9:10;!").unwrap();
    assert_eq!(moves.len(), 2);
    assert_eq!(moves[0], Move { row: 9, column: 9, color: Piece::Black });
    assert_eq!(moves[1], Move { row: 9, column: 10, color: Piece::White });
}

#[test]
fn next_turn_after_moves() {
    let moves = vec![Move { row: 0, column: 0, color: Piece::Black }];
    assert_eq!(next_turn(&moves), Piece::White);
    assert_eq!(next_turn(&[]), Piece::Black);
}

fn sample() -> Vec<Move> {
    vec![
        Move { row: 9, column: 9, color: Piece::Black },
        Move { row: 17, column: 0, color: Piece::White },
        Move { row: 10, column: 3, color: Piece::Black },
    ]
}

#[test]
fn a_history_is_written_entry_by_entry() {
    assert_eq!(moves_history_string(&sample()), "0:Black:9:9;1:White:17:0;2:Black:10:3;!");
    assert_eq!(moves_history_string(&Vec::new()), "!");
}

#[test]
fn a_history_reads_back_as_its_moves() {
    let text = moves_history_string(&sample());
    assert_eq!(parse_moves_history(&text).unwrap(), sample());
    let (board, turn, moves) = board_from_moves_history(&text).unwrap();
    assert_eq!(moves, sample());
    assert_eq!(turn, Piece::White);
    assert_eq!(board, replay(&sample()).unwrap());
}

#[test]
fn an_initial_board_goes_by_its_indices() {
    let (_, turn, moves) = board_from_moves_history(" 1:White:0:1 ; 0:Black:0:0;; \t!!;").unwrap();
    assert_eq!(turn, Piece::Black);
    assert_eq!(
        moves,
        vec![Move { row: 0, column: 0, color: Piece::Black }, Move { row: 0, column: 1, color: Piece::White }]
    );
}

#[test]
fn equal_indices_keep_their_order() {
    let (_, _, moves) = board_from_moves_history("0:Black:0:5;0:White:0:1;0:Black:0:3").unwrap();
    let columns: Vec<usize> = moves.iter().map(|mv| mv.column).collect();
    assert_eq!(columns, vec![5, 1, 3]);
}

#[test]
fn bad_initial_boards_are_refused() {
    let cases = [
        ("0:Black:0", HistoryProblem::Entry, "invalid initial board entry: 0:Black:0"),
        ("x:Black:0:0", HistoryProblem::Index, "invalid move index in initial board entry: x:Black:0:0"),
        ("0:Green:0:0", HistoryProblem::Color, "invalid piece in initial board entry: Green"),
        ("0:Black:-1:0", HistoryProblem::Row, "invalid row in initial board entry: 0:Black:-1:0"),
        ("0:Black:0:", HistoryProblem::Column, "invalid column in initial board entry: 0:Black:0:"),
        (
            "0:Black:18:0",
            HistoryProblem::Move(BoardError::OutOfBounds(Position::new(18, 0))),
            "failed to apply initial board move",
        ),
        (
            "0:Black:1:1;1:White:1:1",
            HistoryProblem::Move(BoardError::Occupied(Position::new(1, 1))),
            "failed to apply initial board move",
        ),
    ];
    for (text, problem, message) in cases {
        let error = board_from_moves_history(text).unwrap_err();
        assert_eq!(error.problem, problem, "{text}");
        assert_eq!(error.message(), message);
    }
}

#[test]
fn bad_histories_are_refused() {
    let cases = [
        ("0:Black:0", "invalid moves history entry: 0:Black:0"),
        ("0:Green:0:0", "invalid piece color: Green"),
        ("0:Black:a:0", "invalid row in moves history"),
        ("0:Black:0:99999999999999999999999", "invalid column in moves history"),
    ];
    for (text, message) in cases {
        assert_eq!(parse_moves_history(text).unwrap_err().preload_message(), message);
    }
}

#[test]
fn indices_of_a_history_do_not_count() {
    let moves = parse_moves_history("whatever:White:1:+2;!;  ;").unwrap();
    assert_eq!(moves, vec![Move { row: 1, column: 2, color: Piece::White }]);
}

#[test]
fn colours_have_names() {
    assert_eq!(parse_piece(&piece_name(Piece::Black)), Some(Piece::Black));
    assert_eq!(parse_piece(&piece_name(Piece::White)), Some(Piece::White));
    assert_eq!(parse_piece(&"black".to_string()), None);
}
