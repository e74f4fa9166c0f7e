//! The hub: rooms, who is in them, and the games that are played there.
//!
//! The hub reads no clock and sends nothing itself: it is handed the time, and hands back what is to
//! be told to whom.
use vstd::prelude::*;

use crate::board::{Board, Move, Piece, Position, BOARD_SIZE};
use crate::history;
use crate::history::{HistoryError, HistoryProblem};
use crate::hub_model as model;
use crate::hub_model::{HubProblem, MemberKind, RoomMember};
use crate::protocol;
use crate::protocol::{
    ClientCommand, Coordinate, DisqualificationReason, GameData, GameInfo, GameOverData, GameState, JoinRoomError,
    JoinRoomResponse, JoinRoomResponseData, LobbyData, PlayersTime, Role, RoomClosedReason,
    ServerEvent, User, UserType,
};
use crate::rules;
use crate::text;

verus! {

broadcast use crate::board::board_has_every_cell;

/// The points of a line of stones through `p`: `behind` of them before it and `ahead` after it in
/// direction (dr, dc).
pub open spec fn line_points(p: Position, dr: int, dc: int, behind: int, ahead: int) -> Seq<Position> {
    Seq::new(
        (behind + 1 + ahead) as nat,
        |i: int|
            Position { row: (p.row + (i - behind) * dr) as usize, column: (p.column + (i - behind) * dc) as usize },
    )
}

/// The points of the first line, of the four directions from `k` on, that holds five stones or more
/// through `p`; `p` alone where none does.
pub open spec fn winning_line(s: rules::Cells, p: Position, color: Piece, k: int) -> Seq<Position>
    decreases 4 - k,
{
    if k < 0 || k >= 4 {
        seq![p]
    } else {
        let (dr, dc) = rules::direction(k);
        let r = p.row as int;
        let c = p.column as int;
        let ahead = rules::run(s, r + dr, c + dc, dr, dc, color);
        let behind = rules::run(s, r - dr, c - dc, -dr, -dc, color);
        if behind + 1 + ahead >= 5 {
            line_points(p, dr, dc, behind, ahead)
        } else {
            winning_line(s, p, color, k + 1)
        }
    }
}

/// The points of a line of five or more through `position` in one direction.
fn line_through(board: &Board, position: Position, color: Piece, row_delta: isize, column_delta: isize) -> (r: Option<
    Vec<Position>,
>)
    requires
        rules::holds(position),
        -1 <= row_delta <= 1,
        -1 <= column_delta <= 1,
        row_delta != 0 || column_delta != 0,
    ensures
        ({
            let row = position.row as int;
            let column = position.column as int;
            let dr = row_delta as int;
            let dc = column_delta as int;
            let ahead = rules::run(board@, row + dr, column + dc, dr, dc, color);
            let behind = rules::run(board@, row - dr, column - dc, -dr, -dc, color);
            match r {
                Some(points) => behind + 1 + ahead >= 5 && points@ == line_points(position, dr, dc, behind, ahead),
                None => behind + 1 + ahead < 5,
            }
        }),
{
    let ghost row = position.row as int;
    let ghost column = position.column as int;
    let ghost dr = row_delta as int;
    let ghost dc = column_delta as int;
    let at_row = position.row as isize;
    let at_column = position.column as isize;
    let (ahead, _, _) = board.count_run(at_row + row_delta, at_column + column_delta, row_delta, column_delta, color);
    let (behind, start_row, start_column) = board.count_run(
        at_row - row_delta,
        at_column - column_delta,
        -row_delta,
        -column_delta,
        color,
    );
    if behind + 1 + ahead < 5 {
        return None;
    }
    proof {
        rules::lemma_run(board@, row + dr, column + dc, dr, dc, color);
        rules::lemma_run(board@, row - dr, column - dc, -dr, -dc, color);
        lemma_line_stays(board@, position, dr, dc, color, behind as int, ahead as int);
        assert(row - dr + (-dr) * behind == row + (-1 - behind) * dr) by (nonlinear_arith);
        assert(column - dc + (-dc) * behind == column + (-1 - behind) * dc) by (nonlinear_arith);
    }
    let ghost line = line_points(position, dr, dc, behind as int, ahead as int);
    let mut points: Vec<Position> = Vec::new();
    let mut r: isize = start_row;
    let mut c: isize = start_column;
    let mut i: usize = 0;
    while i < behind + 1 + ahead
        invariant
            i <= behind + 1 + ahead,
            behind <= 18,
            ahead <= 18,
            -1 <= dr <= 1,
            -1 <= dc <= 1,
            dr == row_delta,
            dc == column_delta,
            row == position.row,
            column == position.column,
            line == line_points(position, dr, dc, behind as int, ahead as int),
            r == row + (i - 1 - behind) * dr,
            c == column + (i - 1 - behind) * dc,
            -1 <= r <= 18,
            -1 <= c <= 18,
            forall|j: int|
                -behind <= j <= ahead ==> rules::on_board(row + #[trigger] (j * dr), column + j * dc),
            points@ == line.take(i as int),
        decreases behind + 1 + ahead - i,
    {
        let ghost j = i - behind;
        assert(rules::on_board(row + j * dr, column + j * dc));
        assert((i - 1 - behind) * dr + dr == j * dr) by (nonlinear_arith)
            requires
                j == i - behind,
        ;
        assert((i - 1 - behind) * dc + dc == j * dc) by (nonlinear_arith)
            requires
                j == i - behind,
        ;
        r = r + row_delta;
        c = c + column_delta;
        points.push(Position::new(r as usize, c as usize));
        assert(points@ =~= line.take(i + 1));
        i = i + 1;
    }
    assert(line.take(i as int) =~= line);
    Some(points)
}

/// A line of stones lies on the board.
pub proof fn lemma_line_stays(s: rules::Cells, p: Position, dr: int, dc: int, color: Piece, behind: int, ahead: int)
    requires
        rules::holds(p),
        -1 <= dr <= 1,
        -1 <= dc <= 1,
        dr != 0 || dc != 0,
        behind == rules::run(s, p.row - dr, p.column - dc, -dr, -dc, color),
        ahead == rules::run(s, p.row + dr, p.column + dc, dr, dc, color),
    ensures
        forall|j: int| -behind <= j <= ahead ==> rules::on_board(p.row + #[trigger] (j * dr), p.column + j * dc),
        forall|j: int|
            -behind <= j <= ahead && j != 0 ==> rules::is_color(
                s,
                p.row + #[trigger] (j * dr),
                p.column + j * dc,
                color,
            ),
{
    let row = p.row as int;
    let column = p.column as int;
    rules::lemma_run(s, row + dr, column + dc, dr, dc, color);
    rules::lemma_run(s, row - dr, column - dc, -dr, -dc, color);
    crate::laws::lemma_run_cells(s, row + dr, column + dc, dr, dc, color, ahead);
    crate::laws::lemma_run_cells(s, row - dr, column - dc, -dr, -dc, color, behind);
    assert forall|j: int| -behind <= j <= ahead && j != 0 implies rules::is_color(
        s,
        row + #[trigger] (j * dr),
        column + j * dc,
        color,
    ) by {
        if j > 0 {
            assert(crate::laws::on_line(s, row + dr, column + dc, dr, dc, color, j - 1));
            crate::laws::lemma_on_line(s, row, column, dr, dc, color, j - 1);
        } else {
            assert(crate::laws::on_line(s, row - dr, column - dc, -dr, -dc, color, -j - 1));
            crate::laws::lemma_on_line(s, row, column, -dr, -dc, color, -j - 1);
            crate::laws::lemma_on_line(s, row, column, dr, dc, color, -j);
        }
        reveal(crate::laws::on_line);
    }
    assert forall|j: int| -behind <= j <= ahead implies rules::on_board(row + #[trigger] (j * dr), column + j * dc) by {
        if j == 0 {
            assert(0 * dr == 0 && 0 * dc == 0);
        }
    }
}

/// The points of the line of five or more that a stone of colour `color` on `position` is part of.
fn winning_points(board: &Board, position: Position, color: Piece) -> (r: Vec<Position>)
    requires
        rules::holds(position),
    ensures
        r@ == winning_line(board@, position, color, 0),
{
    proof {
        reveal_with_fuel(winning_line, 5);
    }
    if let Some(points) = line_through(board, position, color, 1, 0) {
        return points;
    }
    if let Some(points) = line_through(board, position, color, 0, 1) {
        return points;
    }
    if let Some(points) = line_through(board, position, color, 1, 1) {
        return points;
    }
    if let Some(points) = line_through(board, position, color, 1, -1) {
        return points;
    }
    let mut only: Vec<Position> = Vec::new();
    only.push(position);
    assert(only@ =~= seq![position]);
    only
}

/// Why the hub refuses a request.
#[derive(Debug, PartialEq, Eq)]
pub struct HubError {
    pub problem: HubProblem,
    /// The text at fault, where there is one.
    pub text: String,
}

impl HubError {
    pub open spec fn fault(self) -> model::HubFault {
        (self.problem, self.text@)
    }

    /// An error without a text at fault.
    pub fn of(problem: HubProblem) -> (r: Self)
        ensures
            r.fault() == model::fault(problem),
    {
        let text = String::new();
        assert(text@ =~= Seq::<char>::empty());
        HubError { problem, text }
    }

    /// What the error says.
    pub open spec fn message_spec(self) -> Seq<char> {
        match self.problem {
            HubProblem::RoomNotFound => "room not found"@,
            HubProblem::ConnectionNotFound => "connection not found"@,
            HubProblem::OnlyOwnerPreloads => "only the room owner can preload the board"@,
            HubProblem::OnlyOwnerStarts => "only the room owner can start the game"@,
            HubProblem::OnlyOwnerCloses => "only the room owner can close the room"@,
            HubProblem::OnlyOwnerSetsTime => "only the room owner can change move time"@,
            HubProblem::History(problem) => (HistoryError { problem, text: self.text }).preload_message_spec(),
            HubProblem::GameIsOver => "game is already over"@,
            HubProblem::GameNotStarted => "game has not started yet"@,
            HubProblem::NotInRoom => "connection is not in the room"@,
            HubProblem::ObserversCannotPlay => "observers cannot play moves"@,
            HubProblem::NotYourTurn => "it is not this player's turn"@,
            HubProblem::GameIsRunning => "cannot change role while game is running"@,
            HubProblem::NoPlayerSlot => "no player slot available"@,
            HubProblem::MissingArgument => "missing invocation argument"@,
            HubProblem::MissingRoomId => "SetInitialBoard: missing room_id argument"@,
            HubProblem::MissingMovesHistory => "SetInitialBoard: missing moves_history argument"@,
            HubProblem::MissingTarget => "missing hub target"@,
            HubProblem::UnsupportedTarget => "unsupported hub target: "@ + self.text@,
        }
    }

    /// The error in words.
    pub fn message(&self) -> (s: String)
        ensures
            s@ == self.message_spec(),
    {
        match self.problem {
            HubProblem::RoomNotFound => "room not found".to_owned(),
            HubProblem::ConnectionNotFound => "connection not found".to_owned(),
            HubProblem::OnlyOwnerPreloads => "only the room owner can preload the board".to_owned(),
            HubProblem::OnlyOwnerStarts => "only the room owner can start the game".to_owned(),
            HubProblem::OnlyOwnerCloses => "only the room owner can close the room".to_owned(),
            HubProblem::OnlyOwnerSetsTime => "only the room owner can change move time".to_owned(),
            HubProblem::History(problem) => {
                HistoryError { problem, text: self.text.clone() }.preload_message()
            },
            HubProblem::GameIsOver => "game is already over".to_owned(),
            HubProblem::GameNotStarted => "game has not started yet".to_owned(),
            HubProblem::NotInRoom => "connection is not in the room".to_owned(),
            HubProblem::ObserversCannotPlay => "observers cannot play moves".to_owned(),
            HubProblem::NotYourTurn => "it is not this player's turn".to_owned(),
            HubProblem::GameIsRunning => "cannot change role while game is running".to_owned(),
            HubProblem::NoPlayerSlot => "no player slot available".to_owned(),
            HubProblem::MissingArgument => "missing invocation argument".to_owned(),
            HubProblem::MissingRoomId => "SetInitialBoard: missing room_id argument".to_owned(),
            HubProblem::MissingMovesHistory => "SetInitialBoard: missing moves_history argument".to_owned(),
            HubProblem::MissingTarget => "missing hub target".to_owned(),
            HubProblem::UnsupportedTarget => "unsupported hub target: ".to_owned().concat(self.text.as_str()),
        }
    }
}

/// Someone who is connected.
pub struct Connection {
    pub id: u64,
    pub username: String,
    pub room_name: Option<String>,
}

impl View for Connection {
    type V = model::ConnectionModel;

    open spec fn view(&self) -> model::ConnectionModel {
        model::ConnectionModel {
            id: self.id,
            username: self.username@,
            room_name: protocol::text_of(self.room_name),
        }
    }
}

/// A room and its game.
pub struct Room {
    pub name: String,
    pub owner_connection_id: u64,
    pub move_time_seconds: u32,
    pub board: Board,
    pub moves: Vec<Move>,
    pub members: Vec<RoomMember>,
    pub started: bool,
    pub game_over: Option<GameState>,
    pub initial_board_moves_history: Option<String>,
    pub player_turn: Option<Piece>,
    pub black_time_ms: u64,
    pub white_time_ms: u64,
    /// In nanoseconds of the clock that the hub is handed.
    pub turn_started_at: Option<u128>,
    pub turn_start_date: Option<String>,
}

impl View for Room {
    type V = model::RoomModel;

    open spec fn view(&self) -> model::RoomModel {
        model::RoomModel {
            name: self.name@,
            owner: self.owner_connection_id,
            move_time_seconds: self.move_time_seconds,
            cells: self.board@,
            moves: self.moves@,
            members: self.members@,
            started: self.started,
            game_over: self.game_over,
            initial_history: protocol::text_of(self.initial_board_moves_history),
            player_turn: self.player_turn,
            black_time_ms: self.black_time_ms,
            white_time_ms: self.white_time_ms,
            turn_started_at: self.turn_started_at,
            turn_start_date: protocol::text_of(self.turn_start_date),
        }
    }
}

/// What the hub knows.
pub struct ServerState {
    pub connections: Vec<Connection>,
    pub rooms: Vec<Room>,
}

pub open spec fn connections_view(connections: Seq<Connection>) -> Seq<model::ConnectionModel> {
    Seq::new(connections.len(), |i: int| connections[i]@)
}

pub open spec fn rooms_view(rooms: Seq<Room>) -> Seq<model::RoomModel> {
    Seq::new(rooms.len(), |i: int| rooms[i]@)
}

impl View for ServerState {
    type V = model::HubModel;

    open spec fn view(&self) -> model::HubModel {
        model::HubModel { connections: connections_view(self.connections@), rooms: rooms_view(self.rooms@) }
    }
}

/// An event, and the connections that it is to be told to.
#[derive(Debug, PartialEq, Eq)]
pub struct Delivery {
    pub to: Vec<u64>,
    pub event: ServerEvent,
}

impl View for Delivery {
    type V = model::DeliveryModel;

    open spec fn view(&self) -> model::DeliveryModel {
        model::DeliveryModel { to: self.to@, event: self.event@ }
    }
}

pub open spec fn deliveries_view(deliveries: Seq<Delivery>) -> Seq<model::DeliveryModel> {
    Seq::new(deliveries.len(), |i: int| deliveries[i]@)
}

/// `r`, with the hub as it is `after`, is the outcome `o`.
pub open spec fn is_outcome(r: Result<Vec<Delivery>, HubError>, after: ServerState, o: model::Outcome) -> bool {
    &&& after@ == o.hub
    &&& match r {
        Ok(deliveries) => o.told == Ok::<Seq<model::DeliveryModel>, model::HubFault>(deliveries_view(deliveries@)),
        Err(e) => o.told == Err::<Seq<model::DeliveryModel>, model::HubFault>(e.fault()),
    }
}

/// One delivery.
fn one(to: Vec<u64>, event: ServerEvent) -> (r: Vec<Delivery>)
    ensures
        deliveries_view(r@) == seq![model::DeliveryModel { to: to@, event: event@ }],
{
    let mut r: Vec<Delivery> = Vec::new();
    r.push(Delivery { to, event });
    assert(deliveries_view(r@) =~= seq![model::DeliveryModel { to: to@, event: event@ }]);
    r
}

/// Nothing to tell.
fn nothing() -> (r: Vec<Delivery>)
    ensures
        deliveries_view(r@) == Seq::<model::DeliveryModel>::empty(),
{
    let r: Vec<Delivery> = Vec::new();
    assert(deliveries_view(r@) =~= Seq::<model::DeliveryModel>::empty());
    r
}

/// The place of the member `id`.
fn member_place(members: &Vec<RoomMember>, id: u64) -> (r: Option<usize>)
    ensures
        match r {
            Some(i) => model::member_place(members@, id, 0) == Some(i as int) && i < members@.len()
                && members@[i as int].connection_id == id,
            None => model::member_place(members@, id, 0) is None,
        },
{
    let mut i: usize = 0;
    while i < members.len()
        invariant
            i <= members@.len(),
            model::member_place(members@, id, 0) == model::member_place(members@, id, i as int),
        decreases members@.len() - i,
    {
        if members[i].connection_id == id {
            return Some(i);
        }
        i = i + 1;
    }
    None
}

/// The members other than `id`.
fn without(members: &Vec<RoomMember>, id: u64) -> (r: Vec<RoomMember>)
    ensures
        r@ == model::without(members@, id),
{
    let mut r: Vec<RoomMember> = Vec::new();
    let mut i: usize = 0;
    assert(members@.take(0) =~= Seq::<RoomMember>::empty());
    while i < members.len()
        invariant
            i <= members@.len(),
            r@ == model::without(members@.take(i as int), id),
        decreases members@.len() - i,
    {
        assert(members@.take(i + 1).drop_last() =~= members@.take(i as int));
        if members[i].connection_id != id {
            r.push(members[i]);
        }
        i = i + 1;
    }
    assert(members@.take(i as int) =~= members@);
    r
}

/// The identity of the connection `id`, as users are shown it.
fn user_id(id: u64) -> (r: String)
    ensures
        r@ == model::user_id(id),
{
    let mut r = "local-".to_owned();
    text::push_decimal(&mut r, id);
    r
}

fn build_user(connection_id: u64, username: String, kind: MemberKind) -> (r: User)
    ensures
        r@ == model::user_of(connection_id, username@, kind),
{
    let (role, game_info) = match kind {
        MemberKind::Player(color) => (Role::Player, Some(GameInfo { color })),
        MemberKind::Observer => (Role::Observer, None),
    };
    User { id: user_id(connection_id), username, role, game_info, user_type: UserType::Guest }
}

impl ServerState {
    /// A hub without connections and rooms.
    pub fn new() -> (r: Self)
        ensures
            r@.connections == Seq::<model::ConnectionModel>::empty(),
            r@.rooms == Seq::<model::RoomModel>::empty(),
    {
        let r = ServerState { connections: Vec::new(), rooms: Vec::new() };
        assert(r@.connections =~= Seq::<model::ConnectionModel>::empty());
        assert(r@.rooms =~= Seq::<model::RoomModel>::empty());
        r
    }

    fn connection_place(&self, id: u64) -> (r: Option<usize>)
        ensures
            match r {
                Some(i) => model::connection_place(self@.connections, id, 0) == Some(i as int) && i
                    < self.connections@.len(),
                None => model::connection_place(self@.connections, id, 0) is None,
            },
    {
        let mut i: usize = 0;
        while i < self.connections.len()
            invariant
                i <= self.connections@.len(),
                model::connection_place(self@.connections, id, 0) == model::connection_place(
                    self@.connections,
                    id,
                    i as int,
                ),
            decreases self.connections@.len() - i,
        {
            if self.connections[i].id == id {
                return Some(i);
            }
            i = i + 1;
        }
        None
    }

    fn room_place(&self, name: &String) -> (r: Option<usize>)
        ensures
            match r {
                Some(i) => model::room_place(self@.rooms, name@, 0) == Some(i as int) && i < self.rooms@.len()
                    && self.rooms@[i as int].name@ == name@,
                None => model::room_place(self@.rooms, name@, 0) is None,
            },
    {
        let mut i: usize = 0;
        while i < self.rooms.len()
            invariant
                i <= self.rooms@.len(),
                model::room_place(self@.rooms, name@, 0) == model::room_place(self@.rooms, name@, i as int),
            decreases self.rooms@.len() - i,
        {
            if self.rooms[i].name == *name {
                return Some(i);
            }
            i = i + 1;
        }
        None
    }

    fn username_of(&self, id: u64) -> (r: String)
        ensures
            r@ == model::username_of(self@, id),
    {
        match self.connection_place(id) {
            Some(i) => self.connections[i].username.clone(),
            None => {
                let r = String::new();
                assert(r@ =~= Seq::<char>::empty());
                r
            },
        }
    }

    /// The members that are connected, by their connections.
    fn audience(&self, members: &Vec<RoomMember>) -> (r: Vec<u64>)
        ensures
            r@ == model::audience(self@, members@),
    {
        let mut r: Vec<u64> = Vec::new();
        let mut i: usize = 0;
        assert(members@.take(0) =~= Seq::<RoomMember>::empty());
        while i < members.len()
            invariant
                i <= members@.len(),
                r@ == model::audience(self@, members@.take(i as int)),
            decreases members@.len() - i,
        {
            assert(members@.take(i + 1).drop_last() =~= members@.take(i as int));
            if self.connection_place(members[i].connection_id).is_some() {
                r.push(members[i].connection_id);
            }
            i = i + 1;
        }
        assert(members@.take(i as int) =~= members@);
        r
    }

    /// The members that are connected, as users.
    fn build_users(&self, members: &Vec<RoomMember>) -> (r: Vec<User>)
        ensures
            protocol::users_view(r@) == model::users_of(self@, members@),
    {
        let mut r: Vec<User> = Vec::new();
        let mut i: usize = 0;
        assert(members@.take(0) =~= Seq::<RoomMember>::empty());
        assert(protocol::users_view(r@) =~= model::users_of(self@, members@.take(0)));
        while i < members.len()
            invariant
                i <= members@.len(),
                protocol::users_view(r@) == model::users_of(self@, members@.take(i as int)),
            decreases members@.len() - i,
        {
            assert(members@.take(i + 1).drop_last() =~= members@.take(i as int));
            let member = members[i];
            if let Some(c) = self.connection_place(member.connection_id) {
                let ghost before = r@;
                let user = build_user(member.connection_id, self.connections[c].username.clone(), member.kind);
                r.push(user);
                assert(protocol::users_view(r@) =~= protocol::users_view(before).push(user@));
            }
            i = i + 1;
        }
        assert(members@.take(i as int) =~= members@);
        r
    }

    /// The owner of a room sets the time for a move.
    pub fn set_move_time(&mut self, connection_id: u64, room_id: &String, seconds: u32) -> (r: Result<
        Vec<Delivery>,
        HubError,
    >)
        ensures
            is_outcome(r, *final(self), model::time_set(old(self)@, connection_id, room_id@, seconds)),
    {
        let ghost before = self@;
        let i: usize = match self.room_place(room_id) {
            Some(i) => i,
            None => {
                return Err(HubError::of(HubProblem::RoomNotFound));
            },
        };
        if self.rooms[i].owner_connection_id != connection_id {
            return Err(HubError::of(HubProblem::OnlyOwnerSetsTime));
        }
        let allowed: u32 = if seconds < 2 {
            2
        } else if seconds > 300 {
            300
        } else {
            seconds
        };
        self.rooms[i].move_time_seconds = allowed;
        assert(self@ =~= model::with_room(before, i as int, self.rooms@[i as int]@));
        Ok(one(self.audience(&self.rooms[i].members), ServerEvent::SettingsChanged(allowed)))
    }

    /// Opens a connection.
    pub fn connect(&mut self, id: u64, username: String)
        ensures
            final(self)@ == model::connected(old(self)@, id, username@),
    {
        let ghost before = self@;
        let connection = Connection { id, username, room_name: None };
        match self.connection_place(id) {
            Some(i) => {
                self.connections[i] = connection;
                assert(self@.connections =~= before.connections.update(i as int, connection@));
            },
            None => {
                self.connections.push(connection);
                assert(self@.connections =~= before.connections.push(connection@));
            },
        }
        assert(self@.rooms =~= before.rooms);
    }

    /// Makes a room, which `connection_id` owns.
    pub fn create_room(&mut self, connection_id: u64, room_name: String, move_time_seconds: u32)
        ensures
            final(self)@ == model::room_created(old(self)@, connection_id, room_name@, move_time_seconds),
    {
        let ghost before = self@;
        let place = self.room_place(&room_name);
        let room = Room {
            name: room_name,
            owner_connection_id: connection_id,
            move_time_seconds,
            board: Board::new(),
            moves: Vec::new(),
            members: Vec::new(),
            started: false,
            game_over: None,
            initial_board_moves_history: None,
            player_turn: None,
            black_time_ms: 0,
            white_time_ms: 0,
            turn_started_at: None,
            turn_start_date: None,
        };
        assert(room@ =~= model::new_room(room_name@, connection_id, move_time_seconds));
        match place {
            Some(i) => {
                self.rooms[i] = room;
                assert(self@.rooms =~= before.rooms.update(i as int, room@));
            },
            None => {
                self.rooms.push(room);
                assert(self@.rooms =~= before.rooms.push(room@));
            },
        }
        assert(self@.connections =~= before.connections);
    }

    /// Preloads the board of a room.
    pub fn set_initial_board(&mut self, connection_id: u64, room_id: &String, moves_history: String) -> (r: Result<
        Vec<Delivery>,
        HubError,
    >)
        ensures
            is_outcome(
                r,
                *final(self),
                model::board_preloaded(old(self)@, connection_id, room_id@, moves_history@),
            ),
    {
        let ghost before = self@;
        let i: usize = match self.room_place(room_id) {
            Some(i) => i,
            None => {
                return Err(HubError::of(HubProblem::RoomNotFound));
            },
        };
        if self.rooms[i].owner_connection_id != connection_id {
            return Err(HubError::of(HubProblem::OnlyOwnerPreloads));
        }
        let moves = match history::parse_moves_history(moves_history.as_str()) {
            Ok(moves) => moves,
            Err(e) => {
                return Err(HubError { problem: HubProblem::History(e.problem), text: e.text });
            },
        };
        let board = match history::replay(&moves) {
            Ok(board) => board,
            Err(e) => {
                return Err(HubError::of(HubProblem::History(HistoryProblem::Move(e))));
            },
        };
        let turn = history::next_turn(moves.as_slice());
        self.rooms[i].board = board;
        self.rooms[i].moves = moves;
        self.rooms[i].initial_board_moves_history = Some(moves_history.clone());
        self.rooms[i].player_turn = Some(turn);
        self.rooms[i].game_over = None;
        self.rooms[i].started = false;
        self.rooms[i].black_time_ms = 0;
        self.rooms[i].white_time_ms = 0;
        self.rooms[i].turn_started_at = None;
        self.rooms[i].turn_start_date = None;
        assert(self@ =~= model::with_room(before, i as int, self.rooms@[i as int]@));
        Ok(one(self.audience(&self.rooms[i].members), ServerEvent::InitialBoardChanged(moves_history)))
    }

    /// Starts the game of a room.
    pub fn start_game(&mut self, connection_id: u64, room_name: &String, now: u128, date: String) -> (r: Result<
        Vec<Delivery>,
        HubError,
    >)
        ensures
            is_outcome(r, *final(self), model::started(old(self)@, connection_id, room_name@, now, date@)),
    {
        let ghost before = self@;
        let i: usize = match self.room_place(room_name) {
            Some(i) => i,
            None => {
                return Err(HubError::of(HubProblem::RoomNotFound));
            },
        };
        if self.rooms[i].owner_connection_id != connection_id {
            return Err(HubError::of(HubProblem::OnlyOwnerStarts));
        }
        if self.rooms[i].started {
            return Ok(nothing());
        }
        let turn = history::next_turn(self.rooms[i].moves.as_slice());
        self.rooms[i].started = true;
        self.rooms[i].player_turn = Some(turn);
        self.rooms[i].turn_started_at = Some(now);
        self.rooms[i].turn_start_date = Some(date);
        assert(self@ =~= model::with_room(before, i as int, self.rooms@[i as int]@));
        Ok(one(self.audience(&self.rooms[i].members), ServerEvent::GameStarted(turn)))
    }

    /// Someone leaves a room.
    pub fn leave_room(&mut self, connection_id: u64, room_name: &String) -> (r: Result<Vec<Delivery>, HubError>)
        ensures
            is_outcome(r, *final(self), model::left(old(self)@, connection_id, room_name@)),
    {
        let ghost before = self@;
        let i: usize = match self.room_place(room_name) {
            Some(i) => i,
            None => {
                return Err(HubError::of(HubProblem::RoomNotFound));
            },
        };
        let members = without(&self.rooms[i].members, connection_id);
        let to = self.audience(&members);
        let place = self.connection_place(connection_id);
        self.rooms[i].members = members;
        assert(self@.rooms =~= before.rooms.update(i as int, self.rooms@[i as int]@));
        if let Some(c) = place {
            self.connections[c].room_name = None;
            assert(self@.connections =~= before.connections.update(c as int, self.connections@[c as int]@));
        } else {
            assert(self@.connections =~= before.connections);
        }
        assert(self@.rooms =~= before.rooms.update(i as int, self.rooms@[i as int]@));
        Ok(one(to, ServerEvent::PlayerLeft(user_id(connection_id))))
    }

    /// Someone quits.
    pub fn quit(&mut self, connection_id: u64) -> (r: Result<Vec<Delivery>, HubError>)
        ensures
            is_outcome(r, *final(self), model::gone(old(self)@, connection_id)),
    {
        let room_name = match self.connection_place(connection_id) {
            Some(c) => protocol::clone_text(&self.connections[c].room_name),
            None => None,
        };
        match room_name {
            Some(name) => self.leave_room(connection_id, &name),
            None => Ok(nothing()),
        }
    }

    /// The owner closes a room.
    pub fn close_room(&mut self, connection_id: u64, room_name: &String) -> (r: Result<Vec<Delivery>, HubError>)
        ensures
            is_outcome(r, *final(self), model::closed(old(self)@, connection_id, room_name@)),
    {
        let ghost before = self@;
        let i: usize = match self.room_place(room_name) {
            Some(i) => i,
            None => {
                return Err(HubError::of(HubProblem::RoomNotFound));
            },
        };
        if self.rooms[i].owner_connection_id != connection_id {
            return Err(HubError::of(HubProblem::OnlyOwnerCloses));
        }
        let to = self.audience(&self.rooms[i].members);
        self.rooms.remove(i);
        assert(self@.rooms =~= before.rooms.remove(i as int));
        let mut c: usize = 0;
        while c < self.connections.len()
            invariant
                c <= self.connections@.len(),
                self.connections@.len() == before.connections.len(),
                self@.rooms == before.rooms.remove(i as int),
                forall|k: int|
                    0 <= k < before.connections.len() ==> #[trigger] self.connections@[k]@ == (if k < c {
                        model::emptied(before.connections, room_name@)[k]
                    } else {
                        before.connections[k]
                    }),
            decreases self.connections@.len() - c,
        {
            assert(self.connections@[c as int]@ == before.connections[c as int]);
            let inside = match &self.connections[c].room_name {
                Some(name) => *name == *room_name,
                None => false,
            };
            let ghost at = self.connections@;
            if inside {
                self.connections[c].room_name = None;
            }
            proof {
                assert forall|k: int| 0 <= k < before.connections.len() implies #[trigger] self.connections@[k]@ == (if k
                    < c + 1 {
                    model::emptied(before.connections, room_name@)[k]
                } else {
                    before.connections[k]
                }) by {
                    assert(at[k]@ == at[k]@);
                    if k != c {
                        assert(self.connections@[k] == at[k]);
                    }
                }
            }
            c = c + 1;
        }
        assert(self@.connections =~= model::emptied(before.connections, room_name@));
        Ok(one(to, ServerEvent::RoomClosed(RoomClosedReason::ClosedByOwner)))
    }

    /// Someone changes the role in a room.
    pub fn change_role(
        &mut self,
        connection_id: u64,
        room_id: &String,
        new_role: Role,
        preferred_color: Option<Piece>,
    ) -> (r: Result<Vec<Delivery>, HubError>)
        ensures
            is_outcome(
                r,
                *final(self),
                model::role_changed(old(self)@, connection_id, room_id@, new_role, preferred_color),
            ),
    {
        let ghost before = self@;
        let i: usize = match self.room_place(room_id) {
            Some(i) => i,
            None => {
                return Err(HubError::of(HubProblem::RoomNotFound));
            },
        };
        if self.rooms[i].started {
            return Err(HubError::of(HubProblem::GameIsRunning));
        }
        let kind = match role_kind(&self.rooms[i].members, connection_id, new_role, preferred_color) {
            Some(kind) => kind,
            None => {
                return Err(HubError::of(HubProblem::NoPlayerSlot));
            },
        };
        let user = build_user(connection_id, self.username_of(connection_id), kind);
        if let Some(k) = member_place(&self.rooms[i].members, connection_id) {
            self.rooms[i].members[k] = RoomMember { connection_id, kind };
        }
        assert(self@ =~= model::with_room(before, i as int, self.rooms@[i as int]@));
        Ok(one(self.audience(&self.rooms[i].members), ServerEvent::RoleChanged(user)))
    }
}

/// A member other than `id` plays `color`.
fn is_taken(members: &Vec<RoomMember>, id: u64, color: Piece) -> (r: bool)
    ensures
        r == model::is_taken(members@, id, color),
{
    let mut i: usize = 0;
    while i < members.len()
        invariant
            i <= members@.len(),
            forall|k: int|
                0 <= k < i ==> !((#[trigger] members@[k]).connection_id != id && members@[k].kind
                    == MemberKind::Player(color)),
        decreases members@.len() - i,
    {
        let member = members[i];
        if member.connection_id != id && member.kind == MemberKind::Player(color) {
            assert(members@[i as int].connection_id != id);
            return true;
        }
        i = i + 1;
    }
    false
}

/// What someone becomes who asks for a role.
fn role_kind(members: &Vec<RoomMember>, id: u64, role: Role, preferred: Option<Piece>) -> (r: Option<MemberKind>)
    ensures
        r == model::role_kind(members@, id, role, preferred),
{
    let color = match preferred {
        Some(color) => color,
        None => Piece::Black,
    };
    match role {
        Role::Observer => Some(MemberKind::Observer),
        Role::Player => {
            if !is_taken(members, id, color) {
                Some(MemberKind::Player(color))
            } else if !is_taken(members, id, color.opponent()) {
                Some(MemberKind::Player(color.opponent()))
            } else {
                None
            }
        },
    }
}

/// How many members play.
fn player_count(members: &Vec<RoomMember>) -> (r: usize)
    ensures
        r == model::player_count(members@),
{
    let mut n: usize = 0;
    let mut i: usize = 0;
    assert(members@.take(0) =~= Seq::<RoomMember>::empty());
    while i < members.len()
        invariant
            n <= i <= members@.len(),
            n == model::player_count(members@.take(i as int)),
        decreases members@.len() - i,
    {
        assert(members@.take(i + 1).drop_last() =~= members@.take(i as int));
        if let MemberKind::Player(_) = members[i].kind {
            n = n + 1;
        }
        i = i + 1;
    }
    assert(members@.take(i as int) =~= members@);
    n
}

/// The points, as players and the hub name them.
fn coordinates(points: Vec<Position>) -> (r: Vec<Coordinate>)
    ensures
        r@ == model::coordinates(points@),
{
    let mut r: Vec<Coordinate> = Vec::new();
    let mut i: usize = 0;
    while i < points.len()
        invariant
            i <= points@.len(),
            r@ == model::coordinates(points@).take(i as int),
        decreases points@.len() - i,
    {
        r.push(Coordinate::from(points[i]));
        assert(r@ =~= model::coordinates(points@).take(i + 1));
        i = i + 1;
    }
    assert(r@ =~= model::coordinates(points@));
    r
}

impl Room {
    /// What someone who joins becomes.
    fn joins_as(&self, id: u64) -> (r: MemberKind)
        ensures
            r == model::joins_as(self@, id),
    {
        let players: usize = player_count(&self.members);
        if self.owner_connection_id == id || players == 0 {
            MemberKind::Player(Piece::Black)
        } else if players == 1 {
            MemberKind::Player(Piece::White)
        } else {
            MemberKind::Observer
        }
    }

    /// The game as someone who joins is shown it.
    fn game_shown(&self) -> (r: Option<GameData>)
        ensures
            match r {
                Some(d) => model::game_shown(self@) == Some(d@),
                None => model::game_shown(self@) is None,
            },
    {
        if self.started || self.game_over.is_some() {
            let turn_start_date = match &self.turn_start_date {
                Some(date) => date.clone(),
                None => {
                    let none = String::new();
                    assert(none@ =~= Seq::<char>::empty());
                    none
                },
            };
            let player_turn = match self.player_turn {
                Some(turn) => turn,
                None => Piece::Black,
            };
            let time = PlayersTime {
                black_time_ms: self.black_time_ms,
                white_time_ms: self.white_time_ms,
                turn_start_date,
            };
            Some(GameData { time, grid: protocol::board_to_grid(&self.board), player_turn })
        } else {
            None
        }
    }

    /// The end of the game as someone who joins is shown it.
    fn end_shown(&self) -> (r: Option<GameOverData>)
        ensures
            match r {
                Some(d) => model::end_shown(self@) == Some(d@),
                None => model::end_shown(self@) is None,
            },
    {
        match self.game_over {
            Some(game_state) => Some(
                GameOverData {
                    winning_points: None,
                    moves_history: history::moves_history_string(&self.moves),
                    game_state,
                },
            ),
            None => None,
        }
    }

    /// Why someone may not move now.
    fn move_problem(&self, id: u64) -> (r: Option<HubProblem>)
        ensures
            r == model::move_problem(self@, id),
    {
        if self.game_over.is_some() {
            return Some(HubProblem::GameIsOver);
        }
        if !self.started {
            return Some(HubProblem::GameNotStarted);
        }
        match member_place(&self.members, id) {
            None => Some(HubProblem::NotInRoom),
            Some(k) => match self.members[k].kind {
                MemberKind::Observer => Some(HubProblem::ObserversCannotPlay),
                MemberKind::Player(color) => {
                    let turn = match self.player_turn {
                        Some(turn) => turn == color,
                        None => false,
                    };
                    if turn {
                        None
                    } else {
                        Some(HubProblem::NotYourTurn)
                    }
                },
            },
        }
    }

    /// Stops the clock of the player of colour `color`.
    fn stop_clock(&mut self, color: Piece, now: u128)
        ensures
            final(self)@ == model::timed(old(self)@, color, now),
    {
        if let Some(start) = self.turn_started_at {
            let more: u64 = if now >= start {
                #[verifier::truncate]
                (((now - start) / 1_000_000) as u64)
            } else {
                0
            };
            match color {
                Piece::Black => {
                    self.black_time_ms = self.black_time_ms.saturating_add(more);
                },
                Piece::White => {
                    self.white_time_ms = self.white_time_ms.saturating_add(more);
                },
            }
            self.turn_started_at = None;
        }
        assert(self@ =~= model::timed(old(self)@, color, now));
    }

    /// How the game ends with the last move, if it does: `won` says whether that made five.
    fn ending(&self, won: bool, position: Position, color: Piece) -> (r: Option<(GameState, Vec<Coordinate>)>)
        requires
            rules::holds(position),
        ensures
            forall|before: rules::Cells| #[trigger]
                rules::would_win(before, position, color) == won ==> match r {
                    Some(end) => model::ending(before, self@, position, color) == Some((end.0, end.1@)),
                    None => model::ending(before, self@, position, color) is None,
                },
    {
        if won {
            let state = match color {
                Piece::Black => GameState::BlackWin,
                Piece::White => GameState::WhiteWin,
            };
            Some((state, coordinates(winning_points(&self.board, position, color))))
        } else if self.moves.len() >= BOARD_SIZE * BOARD_SIZE {
            let none: Vec<Coordinate> = Vec::new();
            assert(none@ =~= Seq::<Coordinate>::empty());
            Some((GameState::Draw, none))
        } else {
            None
        }
    }
}

/// `r` is the answer `a`.
pub open spec fn is_answer(r: JoinRoomResponse, a: Result<protocol::JoinModel, model::HubFault>) -> bool {
    a matches Ok(j) && r@ == j
}

impl ServerState {
    /// Someone joins a room: what they are answered, and what everyone there is told.
    pub fn join_room(&mut self, connection_id: u64, room_name: &String) -> (r: Result<
        (JoinRoomResponse, Vec<Delivery>),
        HubError,
    >)
        ensures
            match r {
                Ok(x) => is_outcome(
                    Ok(x.1),
                    *final(self),
                    model::joined(old(self)@, connection_id, room_name@),
                ) && is_answer(x.0, model::join_answer(old(self)@, connection_id, room_name@)),
                Err(e) => is_outcome(Err(e), *final(self), model::joined(old(self)@, connection_id, room_name@)),
            },
    {
        let ghost before = self@;
        let c: usize = match self.connection_place(connection_id) {
            Some(c) => c,
            None => {
                return Err(HubError::of(HubProblem::ConnectionNotFound));
            },
        };
        let i: usize = match self.room_place(room_name) {
            Some(i) => i,
            None => {
                return Err(HubError::of(HubProblem::RoomNotFound));
            },
        };
        let owner = self.rooms[i].owner_connection_id;
        if owner != connection_id && member_place(&self.rooms[i].members, owner).is_none() {
            let answer = JoinRoomResponse {
                success: false,
                data: None,
                error: Some(JoinRoomError::RoomDoesNotExist),
            };
            return Ok((answer, nothing()));
        }
        let kind = self.rooms[i].joins_as(connection_id);
        let game_data = self.rooms[i].game_shown();
        let game_over_data = self.rooms[i].end_shown();
        let ghost room = self.rooms@[i as int]@;
        match member_place(&self.rooms[i].members, connection_id) {
            Some(k) => {
                self.rooms[i].members[k] = RoomMember { connection_id, kind };
            },
            None => {
                self.rooms[i].members.push(RoomMember { connection_id, kind });
            },
        }
        let ghost members = model::with_member(room.members, connection_id, kind);
        assert(self.rooms@[i as int].members@ =~= members);
        assert(self.rooms@[i as int]@ =~= (model::RoomModel { members, ..room }));
        assert(self@.connections =~= before.connections);
        let ghost middle = self@;
        proof {
            lemma_users_by_connections(before, middle, members);
        }
        let users = self.build_users(&self.rooms[i].members);
        let to = self.audience(&self.rooms[i].members);
        let user = build_user(connection_id, self.connections[c].username.clone(), kind);
        self.connections[c].room_name = Some(room_name.clone());
        assert(self@.connections =~= before.connections.update(
            c as int,
            model::ConnectionModel { room_name: Some(room_name@), ..before.connections[c as int] },
        ));
        assert(self@.rooms =~= before.rooms.update(i as int, model::RoomModel { members, ..room }));
        let lobby_data = LobbyData {
            users: protocol::clone_users(&users),
            is_room_owner: owner == connection_id,
            move_time_seconds: self.rooms[i].move_time_seconds,
            initial_board_moves_history: protocol::clone_text(&self.rooms[i].initial_board_moves_history),
        };
        let data = JoinRoomResponseData { user: user.clone(), lobby_data, game_data, game_over_data };
        let answer = JoinRoomResponse { success: true, data: Some(data), error: None };
        Ok((answer, one(to, ServerEvent::UserJoined(user, users))))
    }
}

/// Who is connected, and as whom, depends on the connections alone.
proof fn lemma_users_by_connections(a: model::HubModel, b: model::HubModel, members: Seq<RoomMember>)
    requires
        a.connections == b.connections,
    ensures
        model::audience(a, members) == model::audience(b, members),
        model::users_of(a, members) == model::users_of(b, members),
    decreases members.len(),
{
    if members.len() > 0 {
        lemma_users_by_connections(a, b, members.drop_last());
    }
}

/// Two deliveries to the same connections.
fn two(to: Vec<u64>, first: ServerEvent, second: ServerEvent) -> (r: Vec<Delivery>)
    ensures
        deliveries_view(r@) == seq![
            model::DeliveryModel { to: to@, event: first@ },
            model::DeliveryModel { to: to@, event: second@ },
        ],
{
    let again = to.clone();
    assert(again@ =~= to@);
    let mut r: Vec<Delivery> = Vec::new();
    r.push(Delivery { to, event: first });
    r.push(Delivery { to: again, event: second });
    assert(deliveries_view(r@) =~= seq![
        model::DeliveryModel { to: to@, event: first@ },
        model::DeliveryModel { to: to@, event: second@ },
    ]);
    r
}

impl ServerState {
    /// A player moves.
    pub fn play_move(
        &mut self,
        connection_id: u64,
        room_name: &String,
        row: usize,
        column: usize,
        now: u128,
        date: String,
    ) -> (r: Result<Vec<Delivery>, HubError>)
        ensures
            is_outcome(
                r,
                *final(self),
                model::played(old(self)@, connection_id, room_name@, Position { row, column }, now, date@),
            ),
    {
        let i: usize = match self.room_place(room_name) {
            Some(i) => i,
            None => {
                return Err(HubError::of(HubProblem::RoomNotFound));
            },
        };
        if let Some(problem) = self.rooms[i].move_problem(connection_id) {
            return Err(HubError::of(problem));
        }
        let (kind, color) = match member_place(&self.rooms[i].members, connection_id) {
            Some(k) => match self.rooms[i].members[k].kind {
                MemberKind::Player(color) => (MemberKind::Player(color), color),
                MemberKind::Observer => {
                    return Err(HubError::of(HubProblem::ObserversCannotPlay));
                },
            },
            None => {
                return Err(HubError::of(HubProblem::NotInRoom));
            },
        };
        let position = Position::new(row, column);
        let legal = Board::in_bounds(position) && self.rooms[i].board.is_empty_at(position);
        if legal {
            Ok(self.make_move(i, room_name, position, color, now, date))
        } else {
            Ok(self.disqualify(i, connection_id, kind, color, now))
        }
    }

    /// The player of colour `color` in room `i` has made an illegal move.
    fn disqualify(&mut self, i: usize, connection_id: u64, kind: MemberKind, color: Piece, now: u128) -> (r: Vec<
        Delivery,
    >)
        requires
            i < old(self).rooms@.len(),
        ensures
            is_outcome(
                Ok(r),
                *final(self),
                model::illegal_move(
                    old(self)@,
                    i as int,
                    model::timed(old(self)@.rooms[i as int], color, now),
                    connection_id,
                    kind,
                    color,
                ),
            ),
    {
        let ghost before = self@;
        let user = build_user(connection_id, self.username_of(connection_id), kind);
        let state = match color {
            Piece::Black => GameState::BlackDisqualified,
            Piece::White => GameState::WhiteDisqualified,
        };
        self.rooms[i].stop_clock(color, now);
        self.rooms[i].started = false;
        self.rooms[i].game_over = Some(state);
        assert(self@ =~= model::with_room(before, i as int, self.rooms@[i as int]@));
        let to = self.audience(&self.rooms[i].members);
        let no_points: Vec<Coordinate> = Vec::new();
        assert(no_points@ =~= Seq::<Coordinate>::empty());
        let moves_history = history::moves_history_string(&self.rooms[i].moves);
        two(
            to,
            ServerEvent::PlayerDisqualified(user, DisqualificationReason::IllegalMove),
            ServerEvent::GameOver(state, moves_history, Some(no_points)),
        )
    }

    /// The player of colour `color` in room `i` puts a stone on a free cell.
    fn make_move(
        &mut self,
        i: usize,
        room_name: &String,
        position: Position,
        color: Piece,
        now: u128,
        date: String,
    ) -> (r: Vec<Delivery>)
        requires
            i < old(self).rooms@.len(),
            rules::is_free(old(self)@.rooms[i as int].cells, position),
        ensures
            is_outcome(
                Ok(r),
                *final(self),
                model::legal_move(
                    old(self)@,
                    i as int,
                    model::timed(old(self)@.rooms[i as int], color, now),
                    room_name@,
                    Move { row: position.row, column: position.column, color },
                    now,
                    date@,
                ),
            ),
    {
        let ghost before = self@;
        let mv = Move { row: position.row, column: position.column, color };
        let won = self.rooms[i].board.would_win(position, color);
        let ghost cells = self.rooms@[i as int].board@;
        self.rooms[i].stop_clock(color, now);
        let ghost room = self.rooms@[i as int]@;
        let placed = self.rooms[i].board.apply_move(mv);
        assert(placed is Ok);
        self.rooms[i].moves.push(mv);
        self.rooms[i].player_turn = Some(color.opponent());
        self.rooms[i].turn_started_at = Some(now);
        let time = PlayersTime {
            black_time_ms: self.rooms[i].black_time_ms,
            white_time_ms: self.rooms[i].white_time_ms,
            turn_start_date: date.clone(),
        };
        self.rooms[i].turn_start_date = Some(date);
        let told = ServerEvent::MovePlayed(mv, room_name.clone(), time);
        let ghost moved = self.rooms@[i as int]@;
        assert(moved =~= (model::RoomModel {
            cells: rules::put(room.cells, position, color),
            moves: room.moves.push(mv),
            player_turn: Some(rules::other(color)),
            turn_started_at: Some(now),
            turn_start_date: Some(date@),
            ..room
        }));
        let end = self.rooms[i].ending(won, position, color);
        assert(rules::would_win(cells, position, color) == won);
        match end {
            None => {
                assert(self@ =~= model::with_room(before, i as int, moved));
                one(self.audience(&self.rooms[i].members), told)
            },
            Some((state, points)) => {
                self.rooms[i].started = false;
                self.rooms[i].game_over = Some(state);
                assert(self@ =~= model::with_room(before, i as int, self.rooms@[i as int]@));
                let to = self.audience(&self.rooms[i].members);
                let moves_history = history::moves_history_string(&self.rooms[i].moves);
                two(to, told, ServerEvent::GameOver(state, moves_history, Some(points)))
            },
        }
    }
}

impl ServerState {
    /// A connection is lost: whoever it was leaves the rooms, and the rooms that they own of those,
    /// and those that are idle, are gone.
    pub fn cleanup_connection(&mut self, connection_id: u64) -> (r: Vec<Delivery>)
        ensures
            is_outcome(Ok(r), *final(self), model::lost(old(self)@, connection_id)),
    {
        let ghost before = self@;
        if let Some(c) = self.connection_place(connection_id) {
            self.connections.remove(c);
            assert(self@.connections =~= before.connections.remove(c as int));
        } else {
            assert(self@.connections =~= before.connections);
        }
        let ghost cut = model::HubModel {
            connections: model::disconnected(before.connections, connection_id),
            ..before
        };
        assert(self@ =~= cut);
        let told = self.leave_all_rooms(connection_id);
        self.drop_idle_rooms();
        told
    }

    /// The connection `id` leaves every room, and the rooms that it owns of those are gone.
    fn leave_all_rooms(&mut self, id: u64) -> (told: Vec<Delivery>)
        ensures
            final(self)@.connections == old(self)@.connections,
            final(self)@.rooms == model::rooms_left(old(self)@.rooms, id, old(self)@.rooms.len() as int),
            deliveries_view(told@) == model::losses_told(old(self)@, id, old(self)@.rooms.len() as int),
    {
        let ghost cut = self@;
        let n: usize = self.rooms.len();
        let mut told: Vec<Delivery> = Vec::new();
        let mut kept: usize = 0;
        let mut k: usize = 0;
        assert(deliveries_view(told@) =~= Seq::<model::DeliveryModel>::empty());
        assert(self@.rooms =~= model::rooms_left(cut.rooms, id, 0) + cut.rooms.skip(0));
        while k < n
            invariant
                kept <= k <= n,
                n == cut.rooms.len(),
                self@.connections == cut.connections,
                kept == model::rooms_left(cut.rooms, id, k as int).len(),
                self@.rooms == model::rooms_left(cut.rooms, id, k as int) + cut.rooms.skip(k as int),
                deliveries_view(told@) == model::losses_told(cut, id, k as int),
            decreases n - k,
        {
            let ghost left = model::rooms_left(cut.rooms, id, k as int);
            let ghost rest = cut.rooms.skip(k as int);
            let ghost rooms = self@.rooms;
            assert(rooms.len() == self.rooms@.len() && rooms.len() > kept);
            assert(rooms[kept as int] == cut.rooms[k as int]);
            assert(self.rooms@[kept as int]@ == cut.rooms[k as int]);
            assert(rest =~= seq![cut.rooms[k as int]] + cut.rooms.skip(k + 1));
            if member_place(&self.rooms[kept].members, id).is_none() {
                assert(self@.rooms =~= left.push(cut.rooms[k as int]) + cut.rooms.skip(k + 1));
                kept = kept + 1;
            } else {
                let members = without(&self.rooms[kept].members, id);
                let owner = self.rooms[kept].owner_connection_id == id;
                let to = self.audience(&members);
                proof {
                    lemma_users_by_connections(cut, self@, members@);
                }
                let ghost before = deliveries_view(told@);
                if owner {
                    let again = to.clone();
                    assert(again@ =~= to@);
                    told.push(Delivery { to, event: ServerEvent::PlayerLeft(user_id(id)) });
                    told.push(
                        Delivery { to: again, event: ServerEvent::RoomClosed(RoomClosedReason::RoomOwnerLeft) },
                    );
                    self.rooms.remove(kept);
                    assert(self@.rooms =~= rooms.remove(kept as int));
                    assert(self@.rooms =~= left + cut.rooms.skip(k + 1));
                    assert(self@.connections =~= cut.connections);
                } else {
                    told.push(Delivery { to, event: ServerEvent::PlayerLeft(user_id(id)) });
                    self.rooms[kept].members = members;
                    assert(self@.rooms =~= rooms.update(kept as int, self.rooms@[kept as int]@));
                    assert(self@.rooms =~= left.push(self.rooms@[kept as int]@) + cut.rooms.skip(k + 1));
                    assert(self@.connections =~= cut.connections);
                    kept = kept + 1;
                }
                assert(deliveries_view(told@) =~= model::losses_told(cut, id, k + 1));
            }
            k = k + 1;
        }
        assert(self@.rooms =~= model::rooms_left(cut.rooms, id, n as int));
        told
    }

    /// The idle rooms are gone.
    fn drop_idle_rooms(&mut self)
        ensures
            final(self)@.connections == old(self)@.connections,
            final(self)@.rooms == model::busy_rooms(old(self)@.rooms, old(self)@.rooms.len() as int),
    {
        let ghost all = self@.rooms;
        let ghost connections = self@.connections;
        let n: usize = self.rooms.len();
        let mut kept: usize = 0;
        let mut k: usize = 0;
        assert(self@.rooms =~= model::busy_rooms(all, 0) + all.skip(0));
        while k < n
            invariant
                kept <= k <= n,
                n == all.len(),
                self@.connections == connections,
                kept == model::busy_rooms(all, k as int).len(),
                self@.rooms == model::busy_rooms(all, k as int) + all.skip(k as int),
            decreases n - k,
        {
            let ghost busy = model::busy_rooms(all, k as int);
            let ghost rooms = self@.rooms;
            assert(rooms.len() == self.rooms@.len() && rooms.len() > kept);
            assert(rooms[kept as int] == all[k as int]);
            assert(self.rooms@[kept as int]@ == all[k as int]);
            assert(all.skip(k as int) =~= seq![all[k as int]] + all.skip(k + 1));
            let idle = self.rooms[kept].members.len() == 0 && !self.rooms[kept].started
                && self.rooms[kept].game_over.is_none();
            if idle {
                self.rooms.remove(kept);
                assert(self@.rooms =~= rooms.remove(kept as int));
                assert(self@.rooms =~= busy + all.skip(k + 1));
                assert(self@.connections =~= connections);
            } else {
                assert(self@.rooms =~= busy.push(all[k as int]) + all.skip(k + 1));
                kept = kept + 1;
            }
            k = k + 1;
        }
        assert(self@.rooms =~= model::busy_rooms(all, n as int));
    }
}

/// What the hub answers a request that it does not refuse: with the outcome of an action, with what
/// someone who joins is told, or with nothing.
#[derive(Debug, PartialEq, Eq)]
pub enum Reply {
    Success,
    Joined(JoinRoomResponse),
    Nothing,
}

/// Which sort of reply a request gets.
pub open spec fn is_reply(reply: Reply, m: model::HubModel, id: u64, command: ClientCommand) -> bool {
    match command {
        ClientCommand::CreateTwoPlayerRoom { .. } => reply is Success,
        ClientCommand::SetInitialBoard { .. } => reply is Success,
        ClientCommand::JoinRoom { room_name } => reply matches Reply::Joined(answer) && is_answer(
            answer,
            model::join_answer(m, id, room_name@),
        ),
        _ => reply is Nothing,
    }
}

/// What comes of a request.
pub open spec fn outcome_of(m: model::HubModel, id: u64, command: ClientCommand, now: u128, date: Seq<char>) -> model::Outcome {
    match command {
        ClientCommand::CreateTwoPlayerRoom { room_name, move_time_seconds } => model::Outcome {
            hub: model::room_created(m, id, room_name@, move_time_seconds),
            told: Ok(Seq::empty()),
        },
        ClientCommand::SetInitialBoard { room_id, moves_history } => model::board_preloaded(
            m,
            id,
            room_id@,
            moves_history@,
        ),
        ClientCommand::JoinRoom { room_name } => model::joined(m, id, room_name@),
        ClientCommand::StartGame { room_name } => model::started(m, id, room_name@, now, date),
        ClientCommand::LeaveRoom { room_name } => model::left(m, id, room_name@),
        ClientCommand::CloseRoom { room_name } => model::closed(m, id, room_name@),
        ClientCommand::PlayMove { room_name, row, column } => model::played(
            m,
            id,
            room_name@,
            Position { row, column },
            now,
            date,
        ),
        ClientCommand::SetMoveTime { room_id, seconds } => model::time_set(m, id, room_id@, seconds),
        ClientCommand::ChangeRole { room_id, new_role, preferred_color } => model::role_changed(
            m,
            id,
            room_id@,
            new_role,
            preferred_color,
        ),
        ClientCommand::Quit => model::gone(m, id),
    }
}

/// The part of a handled request that `is_outcome` speaks of.
pub open spec fn told_of(r: Result<(Reply, Vec<Delivery>), HubError>) -> Result<Vec<Delivery>, HubError> {
    match r {
        Ok(x) => Ok(x.1),
        Err(e) => Err(e),
    }
}

fn plain(r: Result<Vec<Delivery>, HubError>, reply: Reply) -> (x: Result<(Reply, Vec<Delivery>), HubError>)
    ensures
        told_of(x) == r,
        x matches Ok(y) ==> y.0 == reply,
{
    match r {
        Ok(told) => Ok((reply, told)),
        Err(e) => Err(e),
    }
}

impl ServerState {
    /// Handles a request: what it is answered, and what is told to whom. `now` is the clock in
    /// nanoseconds, `date` the date and time in words.
    pub fn handle_command(&mut self, connection_id: u64, command: ClientCommand, now: u128, date: String) -> (r: Result<
        (Reply, Vec<Delivery>),
        HubError,
    >)
        ensures
            is_outcome(told_of(r), *final(self), outcome_of(old(self)@, connection_id, command, now, date@)),
            r matches Ok(x) ==> is_reply(x.0, old(self)@, connection_id, command),
    {
        match command {
            ClientCommand::CreateTwoPlayerRoom { room_name, move_time_seconds } => {
                self.create_room(connection_id, room_name, move_time_seconds);
                Ok((Reply::Success, nothing()))
            },
            ClientCommand::SetInitialBoard { room_id, moves_history } => plain(
                self.set_initial_board(connection_id, &room_id, moves_history),
                Reply::Success,
            ),
            ClientCommand::JoinRoom { room_name } => match self.join_room(connection_id, &room_name) {
                Ok((answer, told)) => Ok((Reply::Joined(answer), told)),
                Err(e) => Err(e),
            },
            ClientCommand::StartGame { room_name } => plain(
                self.start_game(connection_id, &room_name, now, date),
                Reply::Nothing,
            ),
            ClientCommand::LeaveRoom { room_name } => plain(
                self.leave_room(connection_id, &room_name),
                Reply::Nothing,
            ),
            ClientCommand::CloseRoom { room_name } => plain(
                self.close_room(connection_id, &room_name),
                Reply::Nothing,
            ),
            ClientCommand::PlayMove { room_name, row, column } => plain(
                self.play_move(connection_id, &room_name, row, column, now, date),
                Reply::Nothing,
            ),
            ClientCommand::SetMoveTime { room_id, seconds } => plain(
                self.set_move_time(connection_id, &room_id, seconds),
                Reply::Nothing,
            ),
            ClientCommand::ChangeRole { room_id, new_role, preferred_color } => plain(
                self.change_role(connection_id, &room_id, new_role, preferred_color),
                Reply::Nothing,
            ),
            ClientCommand::Quit => plain(self.quit(connection_id), Reply::Nothing),
        }
    }
}

} // verus!
