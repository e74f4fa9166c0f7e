//! What players and the hub say to one another.
use vstd::prelude::*;

use crate::board::{Board, Move, Piece, Position, BOARD_SIZE};
use crate::rules;
use crate::text;

verus! {

broadcast use crate::board::board_has_every_cell;

/// What someone does in a room.
#[derive(Copy, Clone, Debug, PartialEq, Eq, Structural)]
pub enum Role {
    Player,
    Observer,
}

#[derive(Copy, Clone, Debug, PartialEq, Eq, Structural)]
pub enum UserType {
    Registered,
    Guest,
    Bot,
}

/// The colour of a player.
#[derive(Copy, Clone, Debug, PartialEq, Eq, Structural)]
pub struct GameInfo {
    pub color: Piece,
}

/// Someone in a room.
#[derive(Debug, PartialEq, Eq)]
pub struct User {
    pub id: String,
    pub username: String,
    pub role: Role,
    pub game_info: Option<GameInfo>,
    pub user_type: UserType,
}

/// What a user is, as plain text and values.
pub struct UserModel {
    pub id: Seq<char>,
    pub username: Seq<char>,
    pub role: Role,
    pub game_info: Option<GameInfo>,
    pub user_type: UserType,
}

impl View for User {
    type V = UserModel;

    open spec fn view(&self) -> UserModel {
        UserModel {
            id: self.id@,
            username: self.username@,
            role: self.role,
            game_info: self.game_info,
            user_type: self.user_type,
        }
    }
}

impl Clone for User {
    fn clone(&self) -> (r: Self)
        ensures
            r == *self,
    {
        User {
            id: self.id.clone(),
            username: self.username.clone(),
            role: self.role,
            game_info: self.game_info,
            user_type: self.user_type,
        }
    }
}

/// What users are.
pub open spec fn users_view(users: Seq<User>) -> Seq<UserModel> {
    Seq::new(users.len(), |i: int| users[i]@)
}

/// A copy of a list of users.
pub fn clone_users(users: &Vec<User>) -> (r: Vec<User>)
    ensures
        users_view(r@) == users_view(users@),
{
    let mut r: Vec<User> = Vec::new();
    let mut i: usize = 0;
    while i < users.len()
        invariant
            i <= users@.len(),
            r@ == users@.take(i as int),
        decreases users@.len() - i,
    {
        r.push(users[i].clone());
        assert(r@ =~= users@.take(i + 1));
        i = i + 1;
    }
    assert(r@ =~= users@);
    r
}

/// A cell, as players and the hub name it.
#[derive(Copy, Clone, Debug, PartialEq, Eq, Structural)]
pub struct Coordinate {
    pub row: usize,
    pub column: usize,
}

impl From<Position> for Coordinate {
    fn from(value: Position) -> (r: Self) {
        Self { row: value.row, column: value.column }
    }
}

impl vstd::std_specs::convert::FromSpecImpl<Position> for Coordinate {
    open spec fn obeys_from_spec() -> bool {
        true
    }

    open spec fn from_spec(value: Position) -> Self {
        Coordinate { row: value.row, column: value.column }
    }
}

/// The time that each player has used, and when the turn began.
#[derive(Debug, PartialEq, Eq)]
pub struct PlayersTime {
    pub black_time_ms: u64,
    pub white_time_ms: u64,
    pub turn_start_date: String,
}

pub struct PlayersTimeModel {
    pub black_time_ms: u64,
    pub white_time_ms: u64,
    pub turn_start_date: Seq<char>,
}

impl View for PlayersTime {
    type V = PlayersTimeModel;

    open spec fn view(&self) -> PlayersTimeModel {
        PlayersTimeModel {
            black_time_ms: self.black_time_ms,
            white_time_ms: self.white_time_ms,
            turn_start_date: self.turn_start_date@,
        }
    }
}

/// What a room is like before the game.
#[derive(Debug, PartialEq, Eq)]
pub struct LobbyData {
    pub users: Vec<User>,
    pub is_room_owner: bool,
    pub move_time_seconds: u32,
    pub initial_board_moves_history: Option<String>,
}

#[verifier::ext_equal]
pub struct LobbyModel {
    pub users: Seq<UserModel>,
    pub is_room_owner: bool,
    pub move_time_seconds: u32,
    pub initial_board_moves_history: Option<Seq<char>>,
}

/// The text of an optional string.
pub open spec fn text_of(s: Option<String>) -> Option<Seq<char>> {
    match s {
        Some(t) => Some(t@),
        None => None,
    }
}

/// A copy of an optional string.
pub fn clone_text(s: &Option<String>) -> (r: Option<String>)
    ensures
        r == *s,
{
    match s {
        Some(t) => Some(t.clone()),
        None => None,
    }
}

impl View for LobbyData {
    type V = LobbyModel;

    open spec fn view(&self) -> LobbyModel {
        LobbyModel {
            users: users_view(self.users@),
            is_room_owner: self.is_room_owner,
            move_time_seconds: self.move_time_seconds,
            initial_board_moves_history: text_of(self.initial_board_moves_history),
        }
    }
}

/// A game under way or over.
#[derive(Debug, PartialEq, Eq)]
pub struct GameData {
    pub time: PlayersTime,
    pub grid: Vec<Vec<Option<Piece>>>,
    pub player_turn: Piece,
}

#[verifier::ext_equal]
pub struct GameModel {
    pub time: PlayersTimeModel,
    pub grid: Seq<Seq<Option<Piece>>>,
    pub player_turn: Piece,
}

/// The rows of a grid.
pub open spec fn grid_view(grid: Seq<Vec<Option<Piece>>>) -> Seq<Seq<Option<Piece>>> {
    Seq::new(grid.len(), |i: int| grid[i]@)
}

/// The rows of a board.
pub open spec fn grid_of(s: rules::Cells) -> Seq<Seq<Option<Piece>>> {
    Seq::new(18, |r: int| Seq::new(18, |c: int| rules::at(s, r, c)))
}

impl View for GameData {
    type V = GameModel;

    open spec fn view(&self) -> GameModel {
        GameModel { time: self.time@, grid: grid_view(self.grid@), player_turn: self.player_turn }
    }
}

/// The rows of a board.
pub fn board_to_grid(board: &Board) -> (grid: Vec<Vec<Option<Piece>>>)
    ensures
        grid_view(grid@) == grid_of(board@),
{
    let mut grid: Vec<Vec<Option<Piece>>> = Vec::new();
    let mut row: usize = 0;
    while row < BOARD_SIZE
        invariant
            row <= 18,
            grid_view(grid@) == grid_of(board@).take(row as int),
        decreases 18 - row,
    {
        let mut cells: Vec<Option<Piece>> = Vec::new();
        let mut column: usize = 0;
        while column < BOARD_SIZE
            invariant
                row < 18,
                column <= 18,
                cells@ == grid_of(board@)[row as int].take(column as int),
            decreases 18 - column,
        {
            cells.push(board.get(Position::new(row, column)));
            assert(cells@ =~= grid_of(board@)[row as int].take(column + 1));
            column = column + 1;
        }
        assert(cells@ =~= grid_of(board@)[row as int]);
        let ghost before = grid@;
        grid.push(cells);
        assert(grid_view(grid@) =~= grid_view(before).push(grid_of(board@)[row as int]));
        assert(grid_view(grid@) =~= grid_of(board@).take(row + 1));
        row = row + 1;
    }
    assert(grid_of(board@).take(18) =~= grid_of(board@));
    grid
}

impl From<&Board> for GameData {
    /// A game on `board` in which no time has been used and Black is to move.
    fn from(board: &Board) -> (r: Self)
        ensures
            grid_view(r.grid@) == grid_of(board@),
            r.time.black_time_ms == 0,
            r.time.white_time_ms == 0,
            r.time.turn_start_date@ == Seq::<char>::empty(),
            r.player_turn == Piece::Black,
    {
        Self {
            time: PlayersTime { black_time_ms: 0, white_time_ms: 0, turn_start_date: String::new() },
            grid: board_to_grid(board),
            player_turn: Piece::Black,
        }
    }
}

impl vstd::std_specs::convert::FromSpecImpl<&Board> for GameData {
    open spec fn obeys_from_spec() -> bool {
        false
    }

    open spec fn from_spec(board: &Board) -> Self {
        arbitrary()
    }
}

/// How a game stands.
#[derive(Copy, Clone, Debug, PartialEq, Eq, Structural)]
pub enum GameState {
    NoWin,
    BlackWin,
    WhiteWin,
    Draw,
    BlackDisqualified,
    WhiteDisqualified,
}

/// How a game ended.
#[derive(Debug, PartialEq, Eq)]
pub struct GameOverData {
    pub winning_points: Option<Vec<Coordinate>>,
    pub moves_history: String,
    pub game_state: GameState,
}

#[verifier::ext_equal]
pub struct GameOverModel {
    pub winning_points: Option<Seq<Coordinate>>,
    pub moves_history: Seq<char>,
    pub game_state: GameState,
}

/// The points of an optional list.
pub open spec fn points_of(points: Option<Vec<Coordinate>>) -> Option<Seq<Coordinate>> {
    match points {
        Some(v) => Some(v@),
        None => None,
    }
}

impl View for GameOverData {
    type V = GameOverModel;

    open spec fn view(&self) -> GameOverModel {
        GameOverModel {
            winning_points: points_of(self.winning_points),
            moves_history: self.moves_history@,
            game_state: self.game_state,
        }
    }
}

/// What someone who joins a room is told.
#[derive(Debug, PartialEq, Eq)]
pub struct JoinRoomResponseData {
    pub user: User,
    pub lobby_data: LobbyData,
    pub game_data: Option<GameData>,
    pub game_over_data: Option<GameOverData>,
}

#[verifier::ext_equal]
pub struct JoinedModel {
    pub user: UserModel,
    pub lobby_data: LobbyModel,
    pub game_data: Option<GameModel>,
    pub game_over_data: Option<GameOverModel>,
}

impl View for JoinRoomResponseData {
    type V = JoinedModel;

    open spec fn view(&self) -> JoinedModel {
        JoinedModel {
            user: self.user@,
            lobby_data: self.lobby_data@,
            game_data: match self.game_data {
                Some(d) => Some(d@),
                None => None,
            },
            game_over_data: match self.game_over_data {
                Some(d) => Some(d@),
                None => None,
            },
        }
    }
}

#[derive(Copy, Clone, Debug, PartialEq, Eq, Structural)]
pub enum JoinRoomError {
    RoomDoesNotExist,
    InvalidRequest,
}

/// The answer to someone who wants to join a room.
#[derive(Debug, PartialEq, Eq)]
pub struct JoinRoomResponse {
    pub success: bool,
    pub data: Option<JoinRoomResponseData>,
    pub error: Option<JoinRoomError>,
}

#[verifier::ext_equal]
pub struct JoinModel {
    pub success: bool,
    pub data: Option<JoinedModel>,
    pub error: Option<JoinRoomError>,
}

impl View for JoinRoomResponse {
    type V = JoinModel;

    open spec fn view(&self) -> JoinModel {
        JoinModel {
            success: self.success,
            data: match self.data {
                Some(d) => Some(d@),
                None => None,
            },
            error: self.error,
        }
    }
}

#[derive(Copy, Clone, Debug, PartialEq, Eq, Structural)]
pub enum RoomClosedReason {
    Inactive,
    ClosedByOwner,
    RoomOwnerLeft,
}

#[derive(Copy, Clone, Debug, PartialEq, Eq, Structural)]
pub enum DisqualificationReason {
    IllegalMove,
}

#[derive(Debug, PartialEq, Eq)]
pub struct ErrorMessage {
    pub error_type: String,
    pub title: String,
    pub details: Option<Vec<String>>,
}

#[derive(Copy, Clone, Debug, PartialEq, Eq, Structural)]
pub enum SetInitialBoardError {
    RoomNotFound,
    NotRoomOwner,
    GameAlreadyStarted,
    GameAlreadyEnded,
    EmptyMovesHistory,
    InvalidMoveFoundInMovesHistory,
}

/// What a player asks of the hub.
#[derive(Debug, PartialEq, Eq)]
pub enum ClientCommand {
    CreateTwoPlayerRoom { room_name: String, move_time_seconds: u32 },
    SetInitialBoard { room_id: String, moves_history: String },
    JoinRoom { room_name: String },
    StartGame { room_name: String },
    LeaveRoom { room_name: String },
    CloseRoom { room_name: String },
    PlayMove { room_name: String, row: usize, column: usize },
    SetMoveTime { room_id: String, seconds: u32 },
    ChangeRole { room_id: String, new_role: Role, preferred_color: Option<Piece> },
    Quit,
}

/// What the hub tells the players.
#[derive(Debug, PartialEq, Eq)]
pub enum ServerEvent {
    RoomCreated(String),
    UserJoined(User, Vec<User>),
    GameStarted(Piece),
    MovePlayed(Move, String, PlayersTime),
    GameOver(GameState, String, Option<Vec<Coordinate>>),
    Timeout(String, Piece),
    RoomClosed(RoomClosedReason),
    PlayerDisqualified(User, DisqualificationReason),
    Error(ErrorMessage),
    RoleChanged(User),
    SettingsChanged(u32),
    InitialBoardChanged(String),
    PlayerLeft(String),
}

/// What the hub tells the players, as plain text and values.
pub enum EventModel {
    RoomCreated(Seq<char>),
    UserJoined(UserModel, Seq<UserModel>),
    GameStarted(Piece),
    MovePlayed(Move, Seq<char>, PlayersTimeModel),
    GameOver(GameState, Seq<char>, Option<Seq<Coordinate>>),
    Timeout(Seq<char>, Piece),
    RoomClosed(RoomClosedReason),
    PlayerDisqualified(UserModel, DisqualificationReason),
    Error(Seq<char>, Seq<char>),
    RoleChanged(UserModel),
    SettingsChanged(u32),
    InitialBoardChanged(Seq<char>),
    PlayerLeft(Seq<char>),
}

impl View for ServerEvent {
    type V = EventModel;

    open spec fn view(&self) -> EventModel {
        match *self {
            ServerEvent::RoomCreated(name) => EventModel::RoomCreated(name@),
            ServerEvent::UserJoined(user, users) => EventModel::UserJoined(user@, users_view(users@)),
            ServerEvent::GameStarted(turn) => EventModel::GameStarted(turn),
            ServerEvent::MovePlayed(mv, room, time) => EventModel::MovePlayed(mv, room@, time@),
            ServerEvent::GameOver(state, history, points) => EventModel::GameOver(state, history@, points_of(points)),
            ServerEvent::Timeout(text, piece) => EventModel::Timeout(text@, piece),
            ServerEvent::RoomClosed(reason) => EventModel::RoomClosed(reason),
            ServerEvent::PlayerDisqualified(user, reason) => EventModel::PlayerDisqualified(user@, reason),
            ServerEvent::Error(message) => EventModel::Error(message.error_type@, message.title@),
            ServerEvent::RoleChanged(user) => EventModel::RoleChanged(user@),
            ServerEvent::SettingsChanged(seconds) => EventModel::SettingsChanged(seconds),
            ServerEvent::InitialBoardChanged(history) => EventModel::InitialBoardChanged(history@),
            ServerEvent::PlayerLeft(id) => EventModel::PlayerLeft(id@),
        }
    }
}

} // verus!
