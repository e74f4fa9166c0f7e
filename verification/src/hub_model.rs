//! What the hub does, as functions from what it knows to what it knows then.
use vstd::prelude::*;

use crate::board::{Move, Piece, Position};
use crate::history;
use crate::history::HistoryProblem;
use crate::protocol;
use crate::protocol::{
    Coordinate, DisqualificationReason, EventModel, GameInfo, GameModel, GameOverModel, GameState, JoinModel,
    JoinRoomError, JoinedModel, LobbyModel, PlayersTimeModel, Role, RoomClosedReason, UserModel, UserType,
};
use crate::rules;
use crate::text;

verus! {

/// What a member of a room is there.
#[derive(Copy, Clone, Debug, PartialEq, Eq, Structural)]
pub enum MemberKind {
    Player(Piece),
    Observer,
}

#[derive(Copy, Clone, Debug, PartialEq, Eq, Structural)]
pub struct RoomMember {
    pub connection_id: u64,
    pub kind: MemberKind,
}

/// Why the hub refuses a request.
#[derive(Copy, Clone, Debug, PartialEq, Eq, Structural)]
pub enum HubProblem {
    RoomNotFound,
    ConnectionNotFound,
    OnlyOwnerPreloads,
    OnlyOwnerStarts,
    OnlyOwnerCloses,
    OnlyOwnerSetsTime,
    History(HistoryProblem),
    GameIsOver,
    GameNotStarted,
    NotInRoom,
    ObserversCannotPlay,
    NotYourTurn,
    GameIsRunning,
    NoPlayerSlot,
    MissingArgument,
    MissingRoomId,
    MissingMovesHistory,
    MissingTarget,
    UnsupportedTarget,
}

/// A problem, and the text at fault where there is one.
pub type HubFault = (HubProblem, Seq<char>);

pub open spec fn fault(problem: HubProblem) -> HubFault {
    (problem, Seq::empty())
}

#[verifier::ext_equal]
pub struct ConnectionModel {
    pub id: u64,
    pub username: Seq<char>,
    pub room_name: Option<Seq<char>>,
}

#[verifier::ext_equal]
pub struct RoomModel {
    pub name: Seq<char>,
    pub owner: u64,
    pub move_time_seconds: u32,
    pub cells: rules::Cells,
    pub moves: Seq<Move>,
    pub members: Seq<RoomMember>,
    pub started: bool,
    pub game_over: Option<GameState>,
    pub initial_history: Option<Seq<char>>,
    pub player_turn: Option<Piece>,
    pub black_time_ms: u64,
    pub white_time_ms: u64,
    pub turn_started_at: Option<u128>,
    pub turn_start_date: Option<Seq<char>>,
}

/// What the hub knows: the connections and the rooms.
#[verifier::ext_equal]
pub struct HubModel {
    pub connections: Seq<ConnectionModel>,
    pub rooms: Seq<RoomModel>,
}

/// An event, and the connections that it is told to.
#[verifier::ext_equal]
pub struct DeliveryModel {
    pub to: Seq<u64>,
    pub event: EventModel,
}

/// What the hub knows after a request, and what it tells to whom, or why it refuses.
#[verifier::ext_equal]
pub struct Outcome {
    pub hub: HubModel,
    pub told: Result<Seq<DeliveryModel>, HubFault>,
}

/// The request is refused, and nothing changes.
pub open spec fn refused(m: HubModel, problem: HubProblem) -> Outcome {
    Outcome { hub: m, told: Err(fault(problem)) }
}

/// The place of the connection `id`, from place `i` on.
pub open spec fn connection_place(connections: Seq<ConnectionModel>, id: u64, i: int) -> Option<int>
    decreases connections.len() - i,
{
    if i < 0 || i >= connections.len() {
        None
    } else if connections[i].id == id {
        Some(i)
    } else {
        connection_place(connections, id, i + 1)
    }
}

/// There is a connection `id`.
pub open spec fn is_connected(m: HubModel, id: u64) -> bool {
    connection_place(m.connections, id, 0) is Some
}

/// The user name of the connection `id`, empty where there is none.
pub open spec fn username_of(m: HubModel, id: u64) -> Seq<char> {
    match connection_place(m.connections, id, 0) {
        Some(i) => m.connections[i].username,
        None => Seq::empty(),
    }
}

/// The place of the room `name`, from place `i` on.
pub open spec fn room_place(rooms: Seq<RoomModel>, name: Seq<char>, i: int) -> Option<int>
    decreases rooms.len() - i,
{
    if i < 0 || i >= rooms.len() {
        None
    } else if rooms[i].name == name {
        Some(i)
    } else {
        room_place(rooms, name, i + 1)
    }
}

/// The place of the member `id`, from place `i` on.
pub open spec fn member_place(members: Seq<RoomMember>, id: u64, i: int) -> Option<int>
    decreases members.len() - i,
{
    if i < 0 || i >= members.len() {
        None
    } else if members[i].connection_id == id {
        Some(i)
    } else {
        member_place(members, id, i + 1)
    }
}

pub open spec fn with_room(m: HubModel, i: int, room: RoomModel) -> HubModel {
    HubModel { rooms: m.rooms.update(i, room), ..m }
}

/// The members of a room that are connected, by their connections.
pub open spec fn audience(m: HubModel, members: Seq<RoomMember>) -> Seq<u64>
    decreases members.len(),
{
    if members.len() == 0 {
        Seq::empty()
    } else {
        let before = audience(m, members.drop_last());
        if is_connected(m, members.last().connection_id) {
            before.push(members.last().connection_id)
        } else {
            before
        }
    }
}

/// An event is told to everyone in a room.
pub open spec fn to_room(m: HubModel, room: RoomModel, event: EventModel) -> DeliveryModel {
    DeliveryModel { to: audience(m, room.members), event }
}

/// Room `i` changes to `room`, and everyone in it is told of an event.
pub open spec fn changed(m: HubModel, i: int, room: RoomModel, event: EventModel) -> Outcome {
    let after = with_room(m, i, room);
    Outcome { hub: after, told: Ok(seq![to_room(after, room, event)]) }
}

/// The identity of the connection `id`, as users are shown it.
pub open spec fn user_id(id: u64) -> Seq<char> {
    "local-"@ + text::decimal(id as nat)
}

pub open spec fn user_of(id: u64, username: Seq<char>, kind: MemberKind) -> UserModel {
    UserModel {
        id: user_id(id),
        username,
        role: match kind {
            MemberKind::Player(_) => Role::Player,
            MemberKind::Observer => Role::Observer,
        },
        game_info: match kind {
            MemberKind::Player(color) => Some(GameInfo { color }),
            MemberKind::Observer => None,
        },
        user_type: UserType::Guest,
    }
}

/// The members of a room that are connected, as users.
pub open spec fn users_of(m: HubModel, members: Seq<RoomMember>) -> Seq<UserModel>
    decreases members.len(),
{
    if members.len() == 0 {
        Seq::empty()
    } else {
        let before = users_of(m, members.drop_last());
        let last = members.last();
        if is_connected(m, last.connection_id) {
            before.push(user_of(last.connection_id, username_of(m, last.connection_id), last.kind))
        } else {
            before
        }
    }
}

/// A connection opens: it takes the place of one with the same identity.
pub open spec fn connected(m: HubModel, id: u64, username: Seq<char>) -> HubModel {
    let connection = ConnectionModel { id, username, room_name: None };
    match connection_place(m.connections, id, 0) {
        Some(i) => HubModel { connections: m.connections.update(i, connection), ..m },
        None => HubModel { connections: m.connections.push(connection), ..m },
    }
}

/// A room that nobody is in yet.
pub open spec fn new_room(name: Seq<char>, owner: u64, seconds: u32) -> RoomModel {
    RoomModel {
        name,
        owner,
        move_time_seconds: seconds,
        cells: rules::empty_cells(),
        moves: Seq::empty(),
        members: Seq::empty(),
        started: false,
        game_over: None,
        initial_history: None,
        player_turn: None,
        black_time_ms: 0,
        white_time_ms: 0,
        turn_started_at: None,
        turn_start_date: None,
    }
}

/// A room is made: it takes the place of one with the same name.
pub open spec fn room_created(m: HubModel, id: u64, name: Seq<char>, seconds: u32) -> HubModel {
    let room = new_room(name, id, seconds);
    match room_place(m.rooms, name, 0) {
        Some(i) => with_room(m, i, room),
        None => HubModel { rooms: m.rooms.push(room), ..m },
    }
}

/// The owner preloads the board of a room: the game begins anew from there.
pub open spec fn board_preloaded(m: HubModel, id: u64, name: Seq<char>, moves_history: Seq<char>) -> Outcome {
    match room_place(m.rooms, name, 0) {
        None => refused(m, HubProblem::RoomNotFound),
        Some(i) => {
            let room = m.rooms[i];
            if room.owner != id {
                refused(m, HubProblem::OnlyOwnerPreloads)
            } else {
                match history::read_history(moves_history) {
                    Err(f) => Outcome { hub: m, told: Err((HubProblem::History(f.0), f.1)) },
                    Ok(moves) => match history::replayed(moves) {
                        Err(e) => refused(m, HubProblem::History(HistoryProblem::Move(e))),
                        Ok(cells) => changed(
                            m,
                            i,
                            RoomModel {
                                cells,
                                moves,
                                initial_history: Some(moves_history),
                                player_turn: Some(history::turn_after(moves)),
                                game_over: None,
                                started: false,
                                black_time_ms: 0,
                                white_time_ms: 0,
                                turn_started_at: None,
                                turn_start_date: None,
                                ..room
                            },
                            EventModel::InitialBoardChanged(moves_history),
                        ),
                    },
                }
            }
        },
    }
}

/// How many members play.
pub open spec fn player_count(members: Seq<RoomMember>) -> int
    decreases members.len(),
{
    if members.len() == 0 {
        0
    } else {
        player_count(members.drop_last()) + if members.last().kind is Player {
            1int
        } else {
            0
        }
    }
}

/// What someone who joins becomes: the owner plays Black, the next one White, or Black where nobody
/// plays yet, and everyone else watches.
pub open spec fn joins_as(room: RoomModel, id: u64) -> MemberKind {
    if room.owner == id || player_count(room.members) == 0 {
        MemberKind::Player(Piece::Black)
    } else if player_count(room.members) == 1 {
        MemberKind::Player(Piece::White)
    } else {
        MemberKind::Observer
    }
}

/// The members with `id` as `kind`: in its place where it is one already, else at the end.
pub open spec fn with_member(members: Seq<RoomMember>, id: u64, kind: MemberKind) -> Seq<RoomMember> {
    let member = RoomMember { connection_id: id, kind };
    match member_place(members, id, 0) {
        Some(i) => members.update(i, member),
        None => members.push(member),
    }
}

/// The game of a room as someone who joins is shown it, once it has begun.
pub open spec fn game_shown(room: RoomModel) -> Option<GameModel> {
    if room.started || room.game_over is Some {
        Some(
            GameModel {
                time: PlayersTimeModel {
                    black_time_ms: room.black_time_ms,
                    white_time_ms: room.white_time_ms,
                    turn_start_date: match room.turn_start_date {
                        Some(date) => date,
                        None => Seq::empty(),
                    },
                },
                grid: protocol::grid_of(room.cells),
                player_turn: match room.player_turn {
                    Some(turn) => turn,
                    None => Piece::Black,
                },
            },
        )
    } else {
        None
    }
}

/// The end of the game of a room as someone who joins is shown it.
pub open spec fn end_shown(room: RoomModel) -> Option<GameOverModel> {
    match room.game_over {
        Some(state) => Some(
            GameOverModel {
                winning_points: None,
                moves_history: history::history_text(room.moves),
                game_state: state,
            },
        ),
        None => None,
    }
}

/// What someone who joins a room is answered: nothing but that it does not exist, while its owner
/// is not there.
pub open spec fn join_answer(m: HubModel, id: u64, name: Seq<char>) -> Result<JoinModel, HubFault> {
    match connection_place(m.connections, id, 0) {
        None => Err(fault(HubProblem::ConnectionNotFound)),
        Some(c) => match room_place(m.rooms, name, 0) {
            None => Err(fault(HubProblem::RoomNotFound)),
            Some(i) => {
                let room = m.rooms[i];
                if room.owner != id && member_place(room.members, room.owner, 0) is None {
                    Ok(JoinModel { success: false, data: None, error: Some(JoinRoomError::RoomDoesNotExist) })
                } else {
                    let members = with_member(room.members, id, joins_as(room, id));
                    Ok(
                        JoinModel {
                            success: true,
                            data: Some(
                                JoinedModel {
                                    user: user_of(id, m.connections[c].username, joins_as(room, id)),
                                    lobby_data: LobbyModel {
                                        users: users_of(m, members),
                                        is_room_owner: room.owner == id,
                                        move_time_seconds: room.move_time_seconds,
                                        initial_board_moves_history: room.initial_history,
                                    },
                                    game_data: game_shown(room),
                                    game_over_data: end_shown(room),
                                },
                            ),
                            error: None,
                        },
                    )
                }
            },
        },
    }
}

/// What the hub knows, and tells the room, after someone has joined it.
pub open spec fn joined(m: HubModel, id: u64, name: Seq<char>) -> Outcome {
    match join_answer(m, id, name) {
        Err(f) => Outcome { hub: m, told: Err(f) },
        Ok(answer) => if answer.success {
            let c = connection_place(m.connections, id, 0)->0;
            let i = room_place(m.rooms, name, 0)->0;
            let room = m.rooms[i];
            let kind = joins_as(room, id);
            let members = with_member(room.members, id, kind);
            let after = HubModel {
                connections: m.connections.update(
                    c,
                    ConnectionModel { room_name: Some(name), ..m.connections[c] },
                ),
                rooms: m.rooms.update(i, RoomModel { members, ..room }),
            };
            Outcome {
                hub: after,
                told: Ok(
                    seq![
                        DeliveryModel {
                            to: audience(m, members),
                            event: EventModel::UserJoined(
                                user_of(id, m.connections[c].username, kind),
                                users_of(m, members),
                            ),
                        },
                    ],
                ),
            }
        } else {
            Outcome { hub: m, told: Ok(Seq::empty()) }
        },
    }
}

/// The owner starts the game of a room; nothing happens where it is running.
pub open spec fn started(m: HubModel, id: u64, name: Seq<char>, now: u128, date: Seq<char>) -> Outcome {
    match room_place(m.rooms, name, 0) {
        None => refused(m, HubProblem::RoomNotFound),
        Some(i) => {
            let room = m.rooms[i];
            if room.owner != id {
                refused(m, HubProblem::OnlyOwnerStarts)
            } else if room.started {
                Outcome { hub: m, told: Ok(Seq::empty()) }
            } else {
                let turn = history::turn_after(room.moves);
                changed(
                    m,
                    i,
                    RoomModel {
                        started: true,
                        player_turn: Some(turn),
                        turn_started_at: Some(now),
                        turn_start_date: Some(date),
                        ..room
                    },
                    EventModel::GameStarted(turn),
                )
            }
        },
    }
}

/// Why someone may not move now.
pub open spec fn move_problem(room: RoomModel, id: u64) -> Option<HubProblem> {
    if room.game_over is Some {
        Some(HubProblem::GameIsOver)
    } else if !room.started {
        Some(HubProblem::GameNotStarted)
    } else {
        match member_place(room.members, id, 0) {
            None => Some(HubProblem::NotInRoom),
            Some(k) => match room.members[k].kind {
                MemberKind::Observer => Some(HubProblem::ObserversCannotPlay),
                MemberKind::Player(color) => if room.player_turn != Some(color) {
                    Some(HubProblem::NotYourTurn)
                } else {
                    None
                },
            },
        }
    }
}

/// The milliseconds from `start` to `now`, both in nanoseconds.
pub open spec fn elapsed_ms(start: u128, now: u128) -> u64 {
    if now >= start {
        ((now - start) / 1_000_000) as u64
    } else {
        0
    }
}

/// The time used so far, and `more`, as far as it can be counted.
pub open spec fn time_added(used: u64, more: u64) -> u64 {
    if used + more > u64::MAX {
        u64::MAX
    } else {
        (used + more) as u64
    }
}

/// The room after the turn of `color` is timed: its clock stands.
pub open spec fn timed(room: RoomModel, color: Piece, now: u128) -> RoomModel {
    match room.turn_started_at {
        None => room,
        Some(start) => {
            let more = elapsed_ms(start, now);
            match color {
                Piece::Black => RoomModel {
                    black_time_ms: time_added(room.black_time_ms, more),
                    turn_started_at: None,
                    ..room
                },
                Piece::White => RoomModel {
                    white_time_ms: time_added(room.white_time_ms, more),
                    turn_started_at: None,
                    ..room
                },
            }
        },
    }
}

pub open spec fn disqualified(color: Piece) -> GameState {
    match color {
        Piece::Black => GameState::BlackDisqualified,
        Piece::White => GameState::WhiteDisqualified,
    }
}

pub open spec fn won_by(color: Piece) -> GameState {
    match color {
        Piece::Black => GameState::BlackWin,
        Piece::White => GameState::WhiteWin,
    }
}

/// Points as players and the hub name them.
pub open spec fn coordinates(points: Seq<Position>) -> Seq<Coordinate> {
    Seq::new(points.len(), |i: int| Coordinate { row: points[i].row, column: points[i].column })
}

/// How a game ends with the move of `color` on `p`, if it does, and the points of the winning line:
/// `before` are the cells before the move, `room` is the room after it.
pub open spec fn ending(before: rules::Cells, room: RoomModel, p: Position, color: Piece) -> Option<
    (GameState, Seq<Coordinate>),
> {
    if rules::would_win(before, p, color) {
        Some((won_by(color), coordinates(crate::server::winning_line(room.cells, p, color, 0))))
    } else if room.moves.len() >= 324 {
        Some((GameState::Draw, Seq::empty()))
    } else {
        None
    }
}

/// A player moves. A stone that cannot be put there disqualifies its player. Otherwise it is the
/// other player's turn, and the game is over where five stones stand in a row or the board is full.
pub open spec fn played(m: HubModel, id: u64, name: Seq<char>, p: Position, now: u128, date: Seq<char>) -> Outcome {
    match room_place(m.rooms, name, 0) {
        None => refused(m, HubProblem::RoomNotFound),
        Some(i) => match move_problem(m.rooms[i], id) {
            Some(problem) => refused(m, problem),
            None => {
                let kind = m.rooms[i].members[member_place(m.rooms[i].members, id, 0)->0].kind;
                let color = kind->Player_0;
                let room = timed(m.rooms[i], color, now);
                if !rules::is_free(room.cells, p) {
                    illegal_move(m, i, room, id, kind, color)
                } else {
                    legal_move(m, i, room, name, Move { row: p.row, column: p.column, color }, now, date)
                }
            },
        },
    }
}

/// The player `id` is out: the game is over, and everyone in the room is told why, and how it
/// ended.
pub open spec fn illegal_move(
    m: HubModel,
    i: int,
    room: RoomModel,
    id: u64,
    kind: MemberKind,
    color: Piece,
) -> Outcome {
    let state = disqualified(color);
    let after = RoomModel { started: false, game_over: Some(state), ..room };
    let hub = with_room(m, i, after);
    Outcome {
        hub,
        told: Ok(
            seq![
                to_room(
                    hub,
                    after,
                    EventModel::PlayerDisqualified(
                        user_of(id, username_of(m, id), kind),
                        DisqualificationReason::IllegalMove,
                    ),
                ),
                to_room(
                    hub,
                    after,
                    EventModel::GameOver(state, history::history_text(room.moves), Some(Seq::empty())),
                ),
            ],
        ),
    }
}

/// The stone is put down, and everyone in the room is told of it, and of the end of the game where
/// it ends.
pub open spec fn legal_move(
    m: HubModel,
    i: int,
    room: RoomModel,
    name: Seq<char>,
    mv: Move,
    now: u128,
    date: Seq<char>,
) -> Outcome {
    let p = Position { row: mv.row, column: mv.column };
    let moved = RoomModel {
        cells: rules::put(room.cells, p, mv.color),
        moves: room.moves.push(mv),
        player_turn: Some(rules::other(mv.color)),
        turn_started_at: Some(now),
        turn_start_date: Some(date),
        ..room
    };
    let told = EventModel::MovePlayed(
        mv,
        name,
        PlayersTimeModel {
            black_time_ms: room.black_time_ms,
            white_time_ms: room.white_time_ms,
            turn_start_date: date,
        },
    );
    match ending(room.cells, moved, p, mv.color) {
        None => changed(m, i, moved, told),
        Some(end) => {
            let over = RoomModel { started: false, game_over: Some(end.0), ..moved };
            let hub = with_room(m, i, over);
            Outcome {
                hub,
                told: Ok(
                    seq![
                        to_room(hub, over, told),
                        to_room(
                            hub,
                            over,
                            EventModel::GameOver(end.0, history::history_text(moved.moves), Some(end.1)),
                        ),
                    ],
                ),
            }
        },
    }
}

/// The members other than `id`.
pub open spec fn without(members: Seq<RoomMember>, id: u64) -> Seq<RoomMember>
    decreases members.len(),
{
    if members.len() == 0 {
        Seq::empty()
    } else {
        let before = without(members.drop_last(), id);
        if members.last().connection_id == id {
            before
        } else {
            before.push(members.last())
        }
    }
}

/// The connections after `id` has left the room that it is in.
pub open spec fn out_of_room(connections: Seq<ConnectionModel>, id: u64) -> Seq<ConnectionModel> {
    match connection_place(connections, id, 0) {
        Some(c) => connections.update(c, ConnectionModel { room_name: None, ..connections[c] }),
        None => connections,
    }
}

/// Someone leaves a room, and those who stay are told.
pub open spec fn left(m: HubModel, id: u64, name: Seq<char>) -> Outcome {
    match room_place(m.rooms, name, 0) {
        None => refused(m, HubProblem::RoomNotFound),
        Some(i) => {
            let room = RoomModel { members: without(m.rooms[i].members, id), ..m.rooms[i] };
            let after = HubModel {
                connections: out_of_room(m.connections, id),
                rooms: m.rooms.update(i, room),
            };
            Outcome {
                hub: after,
                told: Ok(
                    seq![
                        DeliveryModel { to: audience(m, room.members), event: EventModel::PlayerLeft(user_id(id)) },
                    ],
                ),
            }
        },
    }
}

/// The connections after the room `name` is gone.
pub open spec fn emptied(connections: Seq<ConnectionModel>, name: Seq<char>) -> Seq<ConnectionModel> {
    Seq::new(
        connections.len(),
        |i: int|
            if connections[i].room_name == Some(name) {
                ConnectionModel { room_name: None, ..connections[i] }
            } else {
                connections[i]
            },
    )
}

/// The owner closes a room, and everyone who was in it is told.
pub open spec fn closed(m: HubModel, id: u64, name: Seq<char>) -> Outcome {
    match room_place(m.rooms, name, 0) {
        None => refused(m, HubProblem::RoomNotFound),
        Some(i) => if m.rooms[i].owner != id {
            refused(m, HubProblem::OnlyOwnerCloses)
        } else {
            Outcome {
                hub: HubModel { connections: emptied(m.connections, name), rooms: m.rooms.remove(i) },
                told: Ok(
                    seq![
                        DeliveryModel {
                            to: audience(m, m.rooms[i].members),
                            event: EventModel::RoomClosed(RoomClosedReason::ClosedByOwner),
                        },
                    ],
                ),
            }
        },
    }
}

/// The connections without `id`.
pub open spec fn disconnected(connections: Seq<ConnectionModel>, id: u64) -> Seq<ConnectionModel> {
    match connection_place(connections, id, 0) {
        Some(c) => connections.remove(c),
        None => connections,
    }
}

/// The rooms that are left of the first `n` after the connection `id` is lost: it leaves those that
/// it is in, and those that it owns of them are gone.
pub open spec fn rooms_left(rooms: Seq<RoomModel>, id: u64, n: int) -> Seq<RoomModel>
    decreases n,
{
    if n <= 0 {
        Seq::empty()
    } else {
        let before = rooms_left(rooms, id, n - 1);
        let room = rooms[n - 1];
        if member_place(room.members, id, 0) is None {
            before.push(room)
        } else if room.owner == id {
            before
        } else {
            before.push(RoomModel { members: without(room.members, id), ..room })
        }
    }
}

/// What those who stay in the first `n` rooms are told after the connection `id` is lost.
pub open spec fn losses_told(m: HubModel, id: u64, n: int) -> Seq<DeliveryModel>
    decreases n,
{
    if n <= 0 {
        Seq::empty()
    } else {
        let before = losses_told(m, id, n - 1);
        let room = m.rooms[n - 1];
        let to = audience(m, without(room.members, id));
        if member_place(room.members, id, 0) is None {
            before
        } else if room.owner == id {
            before.push(DeliveryModel { to, event: EventModel::PlayerLeft(user_id(id)) }).push(
                DeliveryModel { to, event: EventModel::RoomClosed(RoomClosedReason::RoomOwnerLeft) },
            )
        } else {
            before.push(DeliveryModel { to, event: EventModel::PlayerLeft(user_id(id)) })
        }
    }
}

/// Nobody is in the room, and no game was begun there.
pub open spec fn is_idle(room: RoomModel) -> bool {
    room.members.len() == 0 && !room.started && room.game_over is None
}

/// The first `n` rooms without the idle ones.
pub open spec fn busy_rooms(rooms: Seq<RoomModel>, n: int) -> Seq<RoomModel>
    decreases n,
{
    if n <= 0 {
        Seq::empty()
    } else if is_idle(rooms[n - 1]) {
        busy_rooms(rooms, n - 1)
    } else {
        busy_rooms(rooms, n - 1).push(rooms[n - 1])
    }
}

/// The connection `id` is lost.
pub open spec fn lost(m: HubModel, id: u64) -> Outcome {
    let cut = HubModel { connections: disconnected(m.connections, id), ..m };
    let stay = rooms_left(m.rooms, id, m.rooms.len() as int);
    Outcome {
        hub: HubModel { rooms: busy_rooms(stay, stay.len() as int), ..cut },
        told: Ok(losses_told(cut, id, m.rooms.len() as int)),
    }
}

/// The seconds for a move: at least 2 and at most 300.
pub open spec fn allowed_seconds(seconds: u32) -> u32 {
    if seconds < 2 {
        2
    } else if seconds > 300 {
        300
    } else {
        seconds
    }
}

/// The owner sets the time for a move.
pub open spec fn time_set(m: HubModel, id: u64, name: Seq<char>, seconds: u32) -> Outcome {
    match room_place(m.rooms, name, 0) {
        None => refused(m, HubProblem::RoomNotFound),
        Some(i) => if m.rooms[i].owner != id {
            refused(m, HubProblem::OnlyOwnerSetsTime)
        } else {
            changed(
                m,
                i,
                RoomModel { move_time_seconds: allowed_seconds(seconds), ..m.rooms[i] },
                EventModel::SettingsChanged(allowed_seconds(seconds)),
            )
        },
    }
}

/// A member other than `id` plays `color`.
pub open spec fn is_taken(members: Seq<RoomMember>, id: u64, color: Piece) -> bool {
    exists|k: int|
        0 <= k < members.len() && (#[trigger] members[k]).connection_id != id && members[k].kind == MemberKind::Player(
            color,
        )
}

/// What someone becomes who asks for a role: a player gets the colour preferred, Black where none
/// is, or else the other one.
pub open spec fn role_kind(members: Seq<RoomMember>, id: u64, role: Role, preferred: Option<Piece>) -> Option<
    MemberKind,
> {
    let color = match preferred {
        Some(color) => color,
        None => Piece::Black,
    };
    match role {
        Role::Observer => Some(MemberKind::Observer),
        Role::Player => if !is_taken(members, id, color) {
            Some(MemberKind::Player(color))
        } else if !is_taken(members, id, rules::other(color)) {
            Some(MemberKind::Player(rules::other(color)))
        } else {
            None
        },
    }
}

/// Someone changes the role in a room.
pub open spec fn role_changed(m: HubModel, id: u64, name: Seq<char>, role: Role, preferred: Option<Piece>) -> Outcome {
    match room_place(m.rooms, name, 0) {
        None => refused(m, HubProblem::RoomNotFound),
        Some(i) => {
            let room = m.rooms[i];
            if room.started {
                refused(m, HubProblem::GameIsRunning)
            } else {
                match role_kind(room.members, id, role, preferred) {
                    None => refused(m, HubProblem::NoPlayerSlot),
                    Some(kind) => changed(
                        m,
                        i,
                        RoomModel {
                            members: match member_place(room.members, id, 0) {
                                Some(k) => room.members.update(k, RoomMember { connection_id: id, kind }),
                                None => room.members,
                            },
                            ..room
                        },
                        EventModel::RoleChanged(user_of(id, username_of(m, id), kind)),
                    ),
                }
            }
        },
    }
}

/// Someone quits: they leave the room that they are in.
pub open spec fn gone(m: HubModel, id: u64) -> Outcome {
    match connection_place(m.connections, id, 0) {
        Some(c) => match m.connections[c].room_name {
            Some(name) => left(m, id, name),
            None => Outcome { hub: m, told: Ok(Seq::empty()) },
        },
        None => Outcome { hub: m, told: Ok(Seq::empty()) },
    }
}

} // verus!
