use gomoku::board::{Board, BoardError, Move, Piece, Position};
use gomoku::history::HistoryProblem;
use gomoku::hub_model::{HubProblem, MemberKind, RoomMember};
use gomoku::protocol::{
    board_to_grid, ClientCommand, Coordinate, DisqualificationReason, GameData, GameState, JoinRoomError,
    JoinRoomResponse, Role, RoomClosedReason, ServerEvent,
};
use gomoku::server::{Delivery, HubError, Reply, ServerState};

fn s(text: &str) -> String {
    text.to_string()
}

const SECOND: u128 = 1_000_000_000;

fn at(hub: &mut ServerState, id: u64, command: ClientCommand, now: u128) -> Result<(Reply, Vec<Delivery>), HubError> {
    hub.handle_command(id, command, now, format!("t{now}"))
}

fn ask(hub: &mut ServerState, id: u64, command: ClientCommand) -> Result<(Reply, Vec<Delivery>), HubError> {
    at(hub, id, command, 0)
}

fn problem(r: Result<(Reply, Vec<Delivery>), HubError>) -> HubProblem {
    r.unwrap_err().problem
}

fn create() -> ClientCommand {
    ClientCommand::CreateTwoPlayerRoom { room_name: s("room"), move_time_seconds: 5 }
}

fn join() -> ClientCommand {
    ClientCommand::JoinRoom { room_name: s("room") }
}

fn start() -> ClientCommand {
    ClientCommand::StartGame { room_name: s("room") }
}

fn play(row: usize, column: usize) -> ClientCommand {
    ClientCommand::PlayMove { room_name: s("room"), row, column }
}

fn preload(history: &str) -> ClientCommand {
    ClientCommand::SetInitialBoard { room_id: s("room"), moves_history: s(history) }
}

fn answer(r: Result<(Reply, Vec<Delivery>), HubError>) -> JoinRoomResponse {
    match r.unwrap().0 {
        Reply::Joined(answer) => answer,
        other => panic!("{other:?}"),
    }
}

/// A hub with two players and a watcher in a room.
fn full_room() -> ServerState {
    let mut hub = ServerState::new();
    for (id, name) in [(1, "ann"), (2, "bob"), (3, "cat")] {
        hub.connect(id, s(name));
    }
    ask(&mut hub, 1, create()).unwrap();
    for id in 1..=3 {
        assert!(answer(ask(&mut hub, id, join())).success);
    }
    hub
}

#[test]
fn a_room_opens_when_its_owner_is_there() {
    let mut hub = ServerState::new();
    hub.connect(1, s("ann"));
    hub.connect(2, s("bob"));
    assert_eq!(problem(ask(&mut hub, 2, join())), HubProblem::RoomNotFound);
    assert_eq!(problem(ask(&mut hub, 9, join())), HubProblem::ConnectionNotFound);
    assert_eq!(ask(&mut hub, 1, create()), Ok((Reply::Success, vec![])));
    let refused = answer(ask(&mut hub, 2, join()));
    assert_eq!(refused, JoinRoomResponse { success: false, data: None, error: Some(JoinRoomError::RoomDoesNotExist) });

    let owner = answer(ask(&mut hub, 1, join())).data.unwrap();
    assert_eq!(owner.user.id, "local-1");
    assert_eq!(owner.user.username, "ann");
    assert_eq!(owner.user.game_info.unwrap().color, Piece::Black);
    assert!(owner.lobby_data.is_room_owner);
    assert_eq!(owner.lobby_data.move_time_seconds, 5);
    assert!(owner.game_data.is_none() && owner.game_over_data.is_none());

    let (reply, told) = ask(&mut hub, 2, join()).unwrap();
    let guest = match reply {
        Reply::Joined(answer) => answer.data.unwrap(),
        other => panic!("{other:?}"),
    };
    assert_eq!(guest.user.game_info.unwrap().color, Piece::White);
    assert!(!guest.lobby_data.is_room_owner);
    assert_eq!(guest.lobby_data.users.len(), 2);
    assert_eq!(told.len(), 1);
    assert_eq!(told[0].to, vec![1, 2]);
    assert_eq!(told[0].event, ServerEvent::UserJoined(guest.user, guest.lobby_data.users));
}

#[test]
fn the_third_one_watches() {
    let mut hub = full_room();
    assert_eq!(
        hub.rooms[0].members,
        vec![
            RoomMember { connection_id: 1, kind: MemberKind::Player(Piece::Black) },
            RoomMember { connection_id: 2, kind: MemberKind::Player(Piece::White) },
            RoomMember { connection_id: 3, kind: MemberKind::Observer },
        ]
    );
    ask(&mut hub, 1, start()).unwrap();
    assert_eq!(problem(ask(&mut hub, 3, play(0, 0))), HubProblem::ObserversCannotPlay);
}

#[test]
fn players_take_turns_and_the_clock_runs() {
    let mut hub = full_room();
    assert_eq!(problem(ask(&mut hub, 1, play(0, 0))), HubProblem::GameNotStarted);
    assert_eq!(problem(ask(&mut hub, 2, start())), HubProblem::OnlyOwnerStarts);
    let (reply, told) = at(&mut hub, 1, start(), SECOND).unwrap();
    assert_eq!(reply, Reply::Nothing);
    assert_eq!(told, vec![Delivery { to: vec![1, 2, 3], event: ServerEvent::GameStarted(Piece::Black) }]);
    assert_eq!(at(&mut hub, 1, start(), SECOND), Ok((Reply::Nothing, vec![])));

    assert_eq!(problem(ask(&mut hub, 2, play(0, 0))), HubProblem::NotYourTurn);
    assert_eq!(problem(ask(&mut hub, 7, play(0, 0))), HubProblem::NotInRoom);
    let (_, told) = at(&mut hub, 1, play(9, 9), 3 * SECOND + 1_999_999).unwrap();
    assert_eq!(told.len(), 1);
    match &told[0].event {
        ServerEvent::MovePlayed(mv, room, time) => {
            assert_eq!(*mv, Move { row: 9, column: 9, color: Piece::Black });
            assert_eq!(room, "room");
            assert_eq!((time.black_time_ms, time.white_time_ms), (2_001, 0));
            assert_eq!(time.turn_start_date, "t3001999999");
        }
        other => panic!("{other:?}"),
    }
    assert_eq!(problem(ask(&mut hub, 1, play(9, 10))), HubProblem::NotYourTurn);
    at(&mut hub, 2, play(9, 10), 4 * SECOND).unwrap();
    assert_eq!(hub.rooms[0].white_time_ms, 998);
    assert_eq!(hub.rooms[0].moves.len(), 2);
}

#[test]
fn five_in_a_row_end_the_game() {
    let mut hub = full_room();
    ask(&mut hub, 1, start()).unwrap();
    for c in 0..4 {
        ask(&mut hub, 1, play(4, c)).unwrap();
        ask(&mut hub, 2, play(5, c)).unwrap();
    }
    let (_, told) = ask(&mut hub, 1, play(4, 4)).unwrap();
    assert_eq!(told.len(), 2);
    match &told[1].event {
        ServerEvent::GameOver(state, history, points) => {
            assert_eq!(*state, GameState::BlackWin);
            assert!(history.starts_with("0:Black:4:0;1:White:5:0;") && history.ends_with("8:Black:4:4;!"));
            let line: Vec<Coordinate> = (0..5).map(|column| Coordinate { row: 4, column }).collect();
            assert_eq!(*points, Some(line));
        }
        other => panic!("{other:?}"),
    }
    assert_eq!(problem(ask(&mut hub, 2, play(5, 4))), HubProblem::GameIsOver);
    let late = answer(ask(&mut hub, 3, join())).data.unwrap();
    assert_eq!(late.game_over_data.unwrap().game_state, GameState::BlackWin);
    assert_eq!(late.game_data.unwrap().grid[4][4], Some(Piece::Black));
}

#[test]
fn an_illegal_move_disqualifies() {
    for (row, column) in [(9, 9), (18, 0)] {
        let mut hub = full_room();
        ask(&mut hub, 1, start()).unwrap();
        ask(&mut hub, 1, play(9, 9)).unwrap();
        let (_, told) = ask(&mut hub, 2, play(row, column)).unwrap();
        assert_eq!(told.len(), 2);
        match &told[0].event {
            ServerEvent::PlayerDisqualified(user, reason) => {
                assert_eq!(user.username, "bob");
                assert_eq!(*reason, DisqualificationReason::IllegalMove);
            }
            other => panic!("{other:?}"),
        }
        assert_eq!(
            told[1].event,
            ServerEvent::GameOver(GameState::WhiteDisqualified, s("0:Black:9:9;!"), Some(vec![]))
        );
        assert_eq!(hub.rooms[0].game_over, Some(GameState::WhiteDisqualified));
        assert!(!hub.rooms[0].started);
    }
}

#[test]
fn a_full_board_is_a_draw() {
    let mut hub = full_room();
    // Fill all but one cell so that five never stand in a row.
    let mut blacks = Vec::new();
    let mut whites = Vec::new();
    for p in Board::new().iter_positions() {
        if (p.row / 2 + p.column) % 2 == 0 {
            blacks.push(p);
        } else {
            whites.push(p);
        }
    }
    assert_eq!((blacks.len(), whites.len()), (162, 162));
    let mut entries = String::new();
    for i in 0..162 {
        entries.push_str(&format!("{}:Black:{}:{};", 2 * i, blacks[i].row, blacks[i].column));
        if i < 161 {
            entries.push_str(&format!("{}:White:{}:{};", 2 * i + 1, whites[i].row, whites[i].column));
        }
    }
    entries.push('!');
    let (_, told) = ask(&mut hub, 1, preload(&entries)).unwrap();
    assert_eq!(told[0].event, ServerEvent::InitialBoardChanged(entries));
    ask(&mut hub, 1, start()).unwrap();
    let last = whites[161];
    let (_, told) = ask(&mut hub, 2, play(last.row, last.column)).unwrap();
    match &told[1].event {
        ServerEvent::GameOver(state, _, points) => {
            assert_eq!(*state, GameState::Draw);
            assert_eq!(*points, Some(vec![]));
        }
        other => panic!("{other:?}"),
    }
}

#[test]
fn only_the_owner_preloads() {
    let mut hub = full_room();
    assert_eq!(problem(ask(&mut hub, 2, preload("0:Black:1:1;!"))), HubProblem::OnlyOwnerPreloads);
    let error = ask(&mut hub, 1, preload("0:Pink:1:1;!")).unwrap_err();
    assert_eq!(error.problem, HubProblem::History(HistoryProblem::Color));
    assert_eq!(error.message(), "invalid piece color: Pink");
    assert_eq!(
        problem(ask(&mut hub, 1, preload("0:Black:1:1;1:White:1:1;!"))),
        HubProblem::History(HistoryProblem::Move(BoardError::Occupied(Position::new(1, 1))))
    );
    assert_eq!(hub.rooms[0].board, Board::new());
    assert_eq!(ask(&mut hub, 1, preload("0:Black:1:1;!")).unwrap().0, Reply::Success);
    assert_eq!(hub.rooms[0].player_turn, Some(Piece::White));
    let shown = answer(ask(&mut hub, 2, join())).data.unwrap();
    assert_eq!(shown.lobby_data.initial_board_moves_history, Some(s("0:Black:1:1;!")));
}

#[test]
fn the_time_for_a_move_is_limited() {
    let mut hub = full_room();
    let set = |seconds: u32| ClientCommand::SetMoveTime { room_id: s("room"), seconds };
    assert_eq!(problem(ask(&mut hub, 2, set(9))), HubProblem::OnlyOwnerSetsTime);
    for (asked, given) in [(9, 9), (1, 2), (301, 300)] {
        let (_, told) = ask(&mut hub, 1, set(asked)).unwrap();
        assert_eq!(told[0].event, ServerEvent::SettingsChanged(given));
        assert_eq!(hub.rooms[0].move_time_seconds, given);
    }
}

#[test]
fn roles_change_while_no_game_runs() {
    let mut hub = full_room();
    let change = |role: Role, color: Option<Piece>| ClientCommand::ChangeRole {
        room_id: s("room"),
        new_role: role,
        preferred_color: color,
    };
    assert_eq!(problem(ask(&mut hub, 3, change(Role::Player, None))), HubProblem::NoPlayerSlot);
    ask(&mut hub, 1, change(Role::Observer, None)).unwrap();
    let (_, told) = ask(&mut hub, 3, change(Role::Player, Some(Piece::White))).unwrap();
    match &told[0].event {
        ServerEvent::RoleChanged(user) => assert_eq!(user.game_info.unwrap().color, Piece::Black),
        other => panic!("{other:?}"),
    }
    ask(&mut hub, 1, start()).unwrap();
    assert_eq!(problem(ask(&mut hub, 3, change(Role::Observer, None))), HubProblem::GameIsRunning);
}

#[test]
fn leaving_and_closing() {
    let mut hub = full_room();
    let (_, told) = ask(&mut hub, 2, ClientCommand::LeaveRoom { room_name: s("room") }).unwrap();
    assert_eq!(told, vec![Delivery { to: vec![1, 3], event: ServerEvent::PlayerLeft(s("local-2")) }]);
    assert_eq!(ask(&mut hub, 2, ClientCommand::Quit), Ok((Reply::Nothing, vec![])));
    let (_, told) = ask(&mut hub, 3, ClientCommand::Quit).unwrap();
    assert_eq!(told[0].event, ServerEvent::PlayerLeft(s("local-3")));
    let close = || ClientCommand::CloseRoom { room_name: s("room") };
    assert_eq!(problem(ask(&mut hub, 2, close())), HubProblem::OnlyOwnerCloses);
    let (_, told) = ask(&mut hub, 1, close()).unwrap();
    assert_eq!(
        told,
        vec![Delivery { to: vec![1], event: ServerEvent::RoomClosed(RoomClosedReason::ClosedByOwner) }]
    );
    assert!(hub.rooms.is_empty());
    assert_eq!(hub.connections[0].room_name, None);
}

#[test]
fn a_lost_owner_takes_the_room_along() {
    let mut hub = full_room();
    let told = hub.cleanup_connection(1);
    assert_eq!(
        told,
        vec![
            Delivery { to: vec![2, 3], event: ServerEvent::PlayerLeft(s("local-1")) },
            Delivery { to: vec![2, 3], event: ServerEvent::RoomClosed(RoomClosedReason::RoomOwnerLeft) },
        ]
    );
    assert!(hub.rooms.is_empty());
    assert_eq!(hub.connections.len(), 2);
}

#[test]
fn a_lost_guest_leaves_the_room() {
    let mut hub = full_room();
    let told = hub.cleanup_connection(2);
    assert_eq!(told, vec![Delivery { to: vec![1, 3], event: ServerEvent::PlayerLeft(s("local-2")) }]);
    assert_eq!(hub.rooms[0].members.len(), 2);
}

#[test]
fn refusals_are_put_in_words() {
    let cases = [
        (HubProblem::RoomNotFound, "room not found"),
        (HubProblem::ConnectionNotFound, "connection not found"),
        (HubProblem::OnlyOwnerPreloads, "only the room owner can preload the board"),
        (HubProblem::OnlyOwnerStarts, "only the room owner can start the game"),
        (HubProblem::OnlyOwnerCloses, "only the room owner can close the room"),
        (HubProblem::OnlyOwnerSetsTime, "only the room owner can change move time"),
        (HubProblem::GameIsOver, "game is already over"),
        (HubProblem::GameNotStarted, "game has not started yet"),
        (HubProblem::NotInRoom, "connection is not in the room"),
        (HubProblem::ObserversCannotPlay, "observers cannot play moves"),
        (HubProblem::NotYourTurn, "it is not this player's turn"),
        (HubProblem::GameIsRunning, "cannot change role while game is running"),
        (HubProblem::NoPlayerSlot, "no player slot available"),
    ];
    for (problem, message) in cases {
        assert_eq!(HubError::of(problem).message(), message);
    }
}

#[test]
fn a_grid_shows_the_board_row_by_row() {
    let mut board = Board::new();
    board.place(Position::new(2, 5), Piece::White).unwrap();
    let data = GameData::from(&board);
    assert_eq!(data.grid, board_to_grid(&board));
    assert_eq!(data.grid.len(), 18);
    assert_eq!(data.grid[2][5], Some(Piece::White));
    assert_eq!(data.grid[5][2], None);
    assert_eq!(data.player_turn, Piece::Black);
    assert_eq!(Coordinate::from(Position::new(3, 4)), Coordinate { row: 3, column: 4 });
}

#[test]
fn a_bot_follows_the_hub() {
    let mut hub = ServerState::new();
    hub.connect(1, s("ann"));
    hub.connect(2, s("bob"));
    ask(&mut hub, 1, create()).unwrap();
    ask(&mut hub, 1, join()).unwrap();
    let mut bot = gomoku::runtime::RuntimeState::new(false, 5, gomoku::config::StrategyChoice::Search);
    bot.init_room(answer(ask(&mut hub, 2, join())), s("room")).unwrap();
    ask(&mut hub, 1, start()).unwrap();
    for (id, row, column) in [(1, 9, 9), (2, 9, 10), (1, 0, 17)] {
        let (_, told) = ask(&mut hub, id, play(row, column)).unwrap();
        match &told[0].event {
            ServerEvent::MovePlayed(mv, _, _) => bot.move_played(*mv, 0).unwrap(),
            other => panic!("{other:?}"),
        }
        assert_eq!(bot.board, hub.rooms[0].board);
        assert_eq!(bot.player_turn, hub.rooms[0].player_turn);
    }
}
