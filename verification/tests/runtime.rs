use gomoku::board::{Board, BoardError, Move, Piece, Position};
use gomoku::config::StrategyChoice;
use gomoku::engine::DecisionPlan;
use gomoku::history::HistoryProblem;
use gomoku::protocol::{
    ClientCommand, board_to_grid, GameData, GameInfo, GameState, JoinRoomResponse, JoinRoomResponseData, LobbyData, PlayersTime, Role,
    User, UserType,
};
use gomoku::runtime::{board_from_grid, play_command, result_name, RuntimeError, RuntimeState};
use gomoku::strategy::StrategyKind;
use gomoku::ui::{
    board_to_grid as named_grid, compute_candidates, score_scales, search_range, update_candidates_with_search_scores,
    win_to_count, winner_of, CandidateMove, GamePhase, LastDecision, WinCounts,
};

fn s(text: &str) -> String {
    text.to_string()
}

fn user(role: Role) -> User {
    User {
        id: s("1"),
        username: s("a"),
        role,
        game_info: Some(GameInfo { color: Piece::White }),
        user_type: UserType::Bot,
    }
}

fn response(history: Option<&str>, game_data: Option<GameData>) -> JoinRoomResponse {
    JoinRoomResponse {
        success: true,
        data: Some(JoinRoomResponseData {
            user: user(Role::Player),
            lobby_data: LobbyData {
                users: vec![],
                is_room_owner: false,
                move_time_seconds: 7,
                initial_board_moves_history: history.map(s),
            },
            game_data,
            game_over_data: None,
        }),
        error: None,
    }
}

#[test]
fn a_bot_begins_outside_any_room() {
    let state = RuntimeState::new(true, 5, StrategyChoice::Adaptive);
    assert!(state.merge_candidate_scores);
    assert_eq!(state.game_phase, GamePhase::Lobby);
    assert_eq!(state.session.move_time_seconds, Some(5));
    assert_eq!(state.current_room_name(), Err(RuntimeError::NoRoomName));
    assert!(state.snapshot().is_none());
    assert!(state.next_turn(0).is_none());
    assert!(!RuntimeState::new(true, 5, StrategyChoice::Search).merge_candidate_scores);
}

#[test]
fn joining_tells_the_colour_and_the_board() {
    let mut state = RuntimeState::new(false, 5, StrategyChoice::Search);
    state.init_room(response(Some("1:White:3:4;0:Black:3:3;!"), None), s("room")).unwrap();
    assert_eq!(state.current_room_name(), Ok(s("room")));
    assert_eq!(state.my_color, Some(Piece::White));
    assert_eq!(state.session.move_time_seconds, Some(7));
    assert_eq!(state.player_turn, Some(Piece::Black));
    assert_eq!(state.initial_move_count, 2);
    assert_eq!(state.board.get(Position::new(3, 4)), Some(Piece::White));
    assert_eq!(state.candidates, compute_candidates(&state.board, Piece::White));
}

#[test]
fn a_game_under_way_goes_before_the_initial_board() {
    let mut board = Board::new();
    board.place(Position::new(8, 8), Piece::Black).unwrap();
    let game = GameData {
        time: PlayersTime { black_time_ms: 0, white_time_ms: 0, turn_start_date: s("") },
        grid: board_to_grid(&board),
        player_turn: Piece::White,
    };
    let mut state = RuntimeState::new(false, 5, StrategyChoice::Search);
    state.init_room(response(Some("0:Black:3:3;1:White:4:4;!"), Some(game)), s("room")).unwrap();
    assert_eq!(state.board, board);
    assert_eq!(state.player_turn, Some(Piece::White));
}

#[test]
fn joining_can_fail() {
    let mut state = RuntimeState::new(false, 5, StrategyChoice::Search);
    let empty = JoinRoomResponse { success: true, data: None, error: None };
    let error = state.init_room(empty, s("room")).unwrap_err();
    assert_eq!(error, RuntimeError::NoRoomData);
    assert_eq!(error.message(), "join response missing room data");
    assert_eq!(state.current_room_name(), Ok(s("room")));
    let error = state.init_room(response(Some("0:Black:3"), None), s("room")).unwrap_err();
    assert_eq!(error.message(), "invalid initial board entry: 0:Black:3");
    assert_eq!(RuntimeError::NoRoomName.message(), "room name not initialized");
}

#[test]
fn a_grid_is_the_board_it_shows() {
    let mut board = Board::new();
    for (r, c, piece) in [(0, 0, Piece::Black), (17, 17, Piece::White), (3, 12, Piece::White)] {
        board.place(Position::new(r, c), piece).unwrap();
    }
    assert_eq!(board_from_grid(&board_to_grid(&board)), board);
    // What lies off the board does not count.
    let mut wide: Vec<Vec<Option<Piece>>> = vec![vec![None; 20]; 20];
    wide[2][3] = Some(Piece::Black);
    wide[2][19] = Some(Piece::Black);
    wide[19][2] = Some(Piece::White);
    assert_eq!(board_from_grid(&wide).move_count(), 1);
    assert_eq!(board_from_grid(&vec![vec![Some(Piece::White)]]).get(Position::new(0, 0)), Some(Piece::White));
}

#[test]
fn moves_change_the_board_and_the_turn() {
    let mut state = RuntimeState::new(false, 5, StrategyChoice::Adaptive);
    state.init_room(response(None, None), s("room")).unwrap();
    state.game_started(Piece::Black, 1_000);
    assert_eq!(state.game_phase, GamePhase::Playing);
    assert!(state.next_turn(1_000).is_none());
    let mv = Move { row: 9, column: 9, color: Piece::Black };
    state.move_played(mv, 2_000).unwrap();
    assert_eq!(state.move_history, vec![mv]);
    assert_eq!(state.player_turn, Some(Piece::White));
    assert_eq!(
        state.move_played(mv, 3_000),
        Err(RuntimeError::Move(BoardError::Occupied(Position::new(9, 9))))
    );
    assert_eq!(RuntimeError::Move(BoardError::Occupied(Position::new(9, 9))).message(), "failed to apply move");
    assert_eq!(state.turn_started_at_ms, Some(2_000));
    let turn = state.next_turn(2_500).unwrap();
    assert_eq!((turn.move_time_ms, turn.search_ms), (7_000, 6_200));
    assert_eq!(turn.snapshot.board, state.board);
    assert_eq!(state.next_turn(60_000).unwrap().search_ms, 1);
    assert_eq!(state.next_turn(0).unwrap().search_ms, 6_700);
}

#[test]
fn a_new_initial_board_replaces_the_old_one() {
    let mut state = RuntimeState::new(false, 5, StrategyChoice::Search);
    state.initial_board_changed(s("0:Black:1:1;1:White:2:2;2:Black:3:3;!")).unwrap();
    assert_eq!(state.board.move_count(), 3);
    assert_eq!(state.player_turn, Some(Piece::White));
    assert_eq!(state.initial_board_moves_history, Some(s("0:Black:1:1;1:White:2:2;2:Black:3:3;!")));
    match state.initial_board_changed(s("0:Black:1:99")) {
        Err(RuntimeError::InitialBoard(e)) => {
            assert_eq!(e.problem, HistoryProblem::Move(BoardError::OutOfBounds(Position::new(1, 99))))
        }
        other => panic!("{other:?}"),
    }
    assert_eq!(state.board.move_count(), 3);
}

#[test]
fn games_end() {
    let mut state = RuntimeState::new(false, 5, StrategyChoice::Search);
    state.game_started(Piece::Black, 9);
    state.game_over(result_name(Some(GameState::WhiteWin)));
    assert_eq!(state.game_phase, GamePhase::GameOver);
    assert_eq!(state.game_result, Some(s("WhiteWin")));
    assert_eq!(state.turn_started_at_ms, None);
    state.player_disqualified("bob", "IllegalMove");
    assert_eq!(state.game_result, Some(s("bob disqualified: IllegalMove")));
    assert_eq!(result_name(None), "Unknown");
    for game_state in [
        GameState::NoWin,
        GameState::BlackWin,
        GameState::WhiteWin,
        GameState::Draw,
        GameState::BlackDisqualified,
        GameState::WhiteDisqualified,
    ] {
        assert_eq!(result_name(Some(game_state)), format!("{game_state:?}"));
    }
}

#[test]
fn the_owner_starts_with_two_players() {
    let owner = RuntimeState::new(true, 5, StrategyChoice::Search);
    let guest = RuntimeState::new(false, 5, StrategyChoice::Search);
    let two = vec![user(Role::Player), user(Role::Observer), user(Role::Player)];
    assert!(owner.should_start(&two));
    assert!(!guest.should_start(&two));
    assert!(!owner.should_start(&vec![user(Role::Player)]));
    assert!(!owner.should_start(&vec![user(Role::Player), user(Role::Player), user(Role::Player)]));
}

#[test]
fn rooms_and_settings_are_noted() {
    let mut state = RuntimeState::new(true, 5, StrategyChoice::Search);
    state.room_created(s("den"));
    assert_eq!(state.current_room_name(), Ok(s("den")));
    state.settings_changed(30);
    assert_eq!(state.session.move_time_seconds, Some(30));
}

#[test]
fn decisions_are_shown() {
    let mut state = RuntimeState::new(false, 5, StrategyChoice::Search);
    state.init_room(response(Some("0:Black:9:9;!"), None), s("room")).unwrap();
    let p = Position::new(9, 10);
    state.depth_reached(p, 42, s("tempo"), 3, &[(p, 42)]);
    assert_eq!(
        state.last_decision,
        Some(LastDecision { strategy: s("search d=3"), row: 9, column: 10, score: 42, reason: s("tempo") })
    );
    let shown = |state: &RuntimeState| {
        state.candidates.iter().find(|c| c.row == 9 && c.column == 10).unwrap().search_score
    };
    assert_eq!(shown(&state), Some(42));
    state.pondered(&[(p, 17)]);
    assert_eq!(shown(&state), Some(17));
    let plan = DecisionPlan { strategy: StrategyKind::Vcf, position: p, score: 1, reason: s("why") };
    state.plan_chosen(&plan);
    assert_eq!(
        state.last_decision,
        Some(LastDecision { strategy: s("vcf"), row: 9, column: 10, score: 1, reason: s("why") })
    );
}

fn candidate(score_self: i32, score_opponent: i32) -> CandidateMove {
    CandidateMove { row: 1, column: 2, score_self, score_opponent, search_score: None }
}

#[test]
fn scores_are_merged_without_overflow() {
    let p = Position::new(1, 2);
    let cases = [
        (100, 40, Some(5), 265),
        (100, 40, None, 260),
        (i32::MAX, 1, None, i32::MAX - 1),
        (i32::MIN, 1, None, i32::MIN),
        (i32::MAX, -1, Some(3), i32::MAX),
    ];
    for (mine, theirs, found, merged) in cases {
        let mut candidates = vec![candidate(mine, theirs)];
        let scores: Vec<(Position, i32)> = found.iter().map(|&v| (p, v)).collect();
        update_candidates_with_search_scores(&mut candidates, &scores, true);
        assert_eq!(candidates[0].search_score, Some(merged));
    }
    let mut candidates = vec![candidate(1, 1)];
    update_candidates_with_search_scores(&mut candidates, &[(p, 8), (p, 9)], false);
    assert_eq!(candidates[0].search_score, Some(8));
    update_candidates_with_search_scores(&mut candidates, &[], false);
    assert_eq!(candidates[0].search_score, Some(8));
}

#[test]
fn scales_and_ranges_cover_the_scores() {
    assert_eq!(score_scales(&vec![]), (1, 1));
    assert_eq!(score_scales(&vec![candidate(-5, 0), candidate(-9, -1)]), (1, 1));
    assert_eq!(score_scales(&vec![candidate(3, 70), candidate(90, 5)]), (90, 70));
    assert_eq!(search_range(&vec![candidate(3, 70)]), None);
    let mut a = candidate(0, 0);
    a.search_score = Some(-4);
    let mut b = candidate(0, 0);
    b.search_score = Some(11);
    assert_eq!(search_range(&vec![a, candidate(0, 0), b]), Some((-4, 11)));
}

#[test]
fn the_board_is_shown_by_names() {
    let mut board = Board::new();
    board.place(Position::new(1, 2), Piece::Black).unwrap();
    board.place(Position::new(2, 1), Piece::White).unwrap();
    let grid = named_grid(&board);
    assert_eq!((grid.len(), grid[0].len()), (18, 18));
    assert_eq!(grid[1][2], Some(s("Black")));
    assert_eq!(grid[2][1], Some(s("White")));
    assert_eq!(grid[0][0], None);
}

#[test]
fn wins_are_counted_when_the_phase_changes() {
    assert_eq!(winner_of("BlackWin"), Some(Piece::Black));
    assert_eq!(winner_of("WhiteWin"), Some(Piece::White));
    assert_eq!(winner_of("Draw"), None);
    let result = Some(s("WhiteWin"));
    assert_eq!(win_to_count(None, GamePhase::GameOver, &result), Some(Piece::White));
    assert_eq!(win_to_count(Some(GamePhase::Playing), GamePhase::GameOver, &result), Some(Piece::White));
    assert_eq!(win_to_count(Some(GamePhase::GameOver), GamePhase::GameOver, &result), None);
    assert_eq!(win_to_count(Some(GamePhase::Lobby), GamePhase::Playing, &None), None);
    let mut counts = WinCounts::new();
    counts.record(StrategyChoice::Vct);
    counts.record(StrategyChoice::Vct);
    assert_eq!(counts.count(StrategyChoice::Vct), 2);
    assert_eq!(counts.count(StrategyChoice::Vcf), 0);
}

#[test]
fn plans_are_played_as_commands() {
    let plan = DecisionPlan::new(StrategyKind::Search, Position::new(3, 14), 7, "why");
    assert_eq!(
        play_command("den".to_string(), &plan),
        ClientCommand::PlayMove { room_name: "den".to_string(), row: 3, column: 14 }
    );
}
