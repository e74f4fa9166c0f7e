//! What the requests of players come to, by what is seen before and after.
use vstd::prelude::*;

use crate::board::{Move, Piece, Position};
use crate::bot_laws;
use crate::history;
use crate::hub_laws;
use crate::hub_laws::is_sound;
use crate::hub_model as model;
use crate::hub_model::{HubModel, HubProblem, MemberKind, Outcome, RoomMember, RoomModel};
use crate::protocol::{ClientCommand, DisqualificationReason, EventModel, GameState, JoinRoomError, Role, RoomClosedReason};
use crate::rules;
use crate::server;

verus! {

/// Room `i` is the one called `name`.
pub open spec fn is_room(m: HubModel, i: int, name: Seq<char>) -> bool {
    0 <= i < m.rooms.len() && m.rooms[i].name == name
}

/// The first member with the connection `id` is at place `k`.
pub open spec fn is_member(room: RoomModel, k: int, id: u64) -> bool {
    &&& 0 <= k < room.members.len()
    &&& room.members[k].connection_id == id
    &&& forall|j: int| 0 <= j < k ==> (#[trigger] room.members[j]).connection_id != id
}

/// There is a member with the connection `id`.
pub open spec fn has_member(members: Seq<RoomMember>, id: u64) -> bool {
    exists|k: int| 0 <= k < members.len() && (#[trigger] members[k]).connection_id == id
}

/// There is a connection `id`.
pub open spec fn has_connection(m: HubModel, id: u64) -> bool {
    exists|c: int| 0 <= c < m.connections.len() && (#[trigger] m.connections[c]).id == id
}

/// `to` are the members that are connected, and nobody else.
pub open spec fn reaches_all(m: HubModel, members: Seq<RoomMember>, to: Seq<u64>) -> bool {
    forall|x: u64| #[trigger] to.contains(x) <==> has_member(members, x) && has_connection(m, x)
}

proof fn lemma_room(m: HubModel, i: int, name: Seq<char>)
    requires
        is_sound(m),
        is_room(m, i, name),
    ensures
        model::room_place(m.rooms, name, 0) == Some(i),
{
    hub_laws::lemma_room_place(m.rooms, name, 0);
    let k = model::room_place(m.rooms, name, 0)->0;
    if k < i {
        assert(m.rooms[k].name != m.rooms[i].name);
    } else if i < k {
        assert(m.rooms[i].name != m.rooms[k].name);
    }
}

proof fn lemma_member(members: Seq<RoomMember>, id: u64, i: int, k: int)
    requires
        0 <= i <= k < members.len(),
        members[k].connection_id == id,
        forall|j: int| 0 <= j < k ==> (#[trigger] members[j]).connection_id != id,
    ensures
        model::member_place(members, id, i) == Some(k),
    decreases k - i,
{
    if i < k {
        assert(members[i].connection_id != id);
        lemma_member(members, id, i + 1, k);
    }
}

proof fn lemma_audience(m: HubModel, members: Seq<RoomMember>)
    ensures
        reaches_all(m, members, model::audience(m, members)),
    decreases members.len(),
{
    let to = model::audience(m, members);
    if members.len() > 0 {
        let before = members.drop_last();
        let last = members.last().connection_id;
        lemma_audience(m, before);
        hub_laws::lemma_connection_place(m.connections, last, 0);
        let earlier = model::audience(m, before);
        assert forall|x: u64| #[trigger] to.contains(x) <==> has_member(members, x) && has_connection(m, x) by {
            assert(earlier.contains(x) <==> has_member(before, x) && has_connection(m, x));
            if has_member(before, x) {
                let k = choose|k: int| 0 <= k < before.len() && (#[trigger] before[k]).connection_id == x;
                assert(members[k].connection_id == x);
            }
            if has_member(members, x) && x != last {
                let k = choose|k: int| 0 <= k < members.len() && (#[trigger] members[k]).connection_id == x;
                assert(before[k].connection_id == x);
            }
            if x == last {
                assert(members[members.len() - 1].connection_id == x);
                if model::is_connected(m, last) {
                    let c = model::connection_place(m.connections, last, 0)->0;
                    assert(m.connections[c].id == x);
                    assert(to[to.len() - 1] == x);
                }
            }
            if earlier.contains(x) {
                let k = choose|k: int| 0 <= k < earlier.len() && earlier[k] == x;
                assert(to[k] == x);
            }
            if to.contains(x) {
                let k = choose|k: int| 0 <= k < to.len() && to[k] == x;
                if k < earlier.len() {
                    assert(earlier[k] == x);
                }
            }
        }
    }
}

/// Nothing but room `i` has changed.
pub open spec fn only_room(before: HubModel, after: HubModel, i: int) -> bool {
    &&& after.connections == before.connections
    &&& after.rooms.len() == before.rooms.len()
    &&& forall|j: int| 0 <= j < before.rooms.len() && j != i ==> after.rooms[j] == #[trigger] before.rooms[j]
}

/// The player `id` plays colour `color` in a game of room `i` that is running, and it is their turn.
pub open spec fn may_move(m: HubModel, i: int, k: int, id: u64, color: Piece) -> bool {
    let room = m.rooms[i];
    &&& is_member(room, k, id)
    &&& room.members[k].kind == MemberKind::Player(color)
    &&& room.started
    &&& room.game_over is None
    &&& room.player_turn == Some(color)
}

/// What a move asks of the hub.
pub open spec fn move_of(m: HubModel, id: u64, room_name: String, p: Position, now: u128, date: Seq<char>) -> Outcome {
    server::outcome_of(
        m,
        id,
        ClientCommand::PlayMove { room_name, row: p.row, column: p.column },
        now,
        date,
    )
}

proof fn lemma_may_move(m: HubModel, i: int, k: int, id: u64, color: Piece, name: Seq<char>)
    requires
        is_sound(m),
        is_room(m, i, name),
        may_move(m, i, k, id, color),
    ensures
        model::room_place(m.rooms, name, 0) == Some(i),
        model::member_place(m.rooms[i].members, id, 0) == Some(k),
        model::move_problem(m.rooms[i], id) is None,
{
    lemma_room(m, i, name);
    lemma_member(m.rooms[i].members, id, 0, k);
}

/// A stone that the player to move puts on a free cell lies there then, all other cells and rooms are as
/// they were, and the move is noted and told to everyone in the room. It is the other player's turn.
pub proof fn law_move_puts_one_stone(
    m: HubModel,
    i: int,
    k: int,
    id: u64,
    room_name: String,
    color: Piece,
    p: Position,
    now: u128,
    date: Seq<char>,
)
    requires
        is_sound(m),
        is_room(m, i, room_name@),
        may_move(m, i, k, id, color),
        rules::is_cells(m.rooms[i].cells),
        rules::is_free(m.rooms[i].cells, p),
    ensures
        ({
            let o = move_of(m, id, room_name, p, now, date);
            let room = m.rooms[i];
            let after = o.hub.rooms[i];
            &&& only_room(m, o.hub, i)
            &&& after.cells.len() == 324
            &&& rules::at(after.cells, p.row as int, p.column as int) == Some(color)
            &&& forall|r: int, c: int|
                (r != p.row || c != p.column) ==> #[trigger] rules::at(after.cells, r, c) == rules::at(room.cells, r, c)
            &&& after.moves == room.moves.push(Move { row: p.row, column: p.column, color })
            &&& after.player_turn is Some
            &&& after.player_turn != Some(color)
            &&& after.members == room.members
            &&& after.owner == room.owner
            &&& after.turn_started_at == Some(now)
            &&& o.told matches Ok(told) && told.len() >= 1 && reaches_all(o.hub, room.members, told[0].to) && (
            told[0].event matches EventModel::MovePlayed(mv, name, _) && mv == (Move {
                row: p.row,
                column: p.column,
                color,
            }) && name == room_name@)
        }),
{
    lemma_may_move(m, i, k, id, color, room_name@);
    let o = move_of(m, id, room_name, p, now, date);
    lemma_audience(o.hub, m.rooms[i].members);
}

/// A game ends with the move that makes five in a row, and it is won by the colour that made it: Black's
/// five is a win of Black, White's one of White. It ends in a draw with the move that fills the board
/// without a five, and goes on after any other. The end is told to everyone in the room.
pub proof fn law_five_wins_for_its_colour(
    m: HubModel,
    i: int,
    k: int,
    id: u64,
    room_name: String,
    color: Piece,
    p: Position,
    now: u128,
    date: Seq<char>,
)
    requires
        is_sound(m),
        is_room(m, i, room_name@),
        may_move(m, i, k, id, color),
        rules::is_cells(m.rooms[i].cells),
        rules::is_free(m.rooms[i].cells, p),
    ensures
        ({
            let o = move_of(m, id, room_name, p, now, date);
            let room = m.rooms[i];
            let after = o.hub.rooms[i];
            let five = rules::would_win(room.cells, p, color);
            let full = room.moves.len() + 1 >= 324;
            &&& after.game_over == Some(GameState::BlackWin) <==> five && color == Piece::Black
            &&& after.game_over == Some(GameState::WhiteWin) <==> five && color == Piece::White
            &&& after.game_over == Some(GameState::Draw) <==> !five && full
            &&& after.game_over is None <==> !five && !full
            &&& after.started <==> after.game_over is None
            &&& o.told matches Ok(told) && told.len() == (if after.game_over is Some {
                2int
            } else {
                1
            }) && (after.game_over matches Some(end) ==> reaches_all(o.hub, room.members, told[1].to) && (
            told[1].event matches EventModel::GameOver(state, _, points) && state == end && (points matches Some(line)
                && (five <==> line.len() >= 5))))
        }),
{
    lemma_may_move(m, i, k, id, color, room_name@);
    let o = move_of(m, id, room_name, p, now, date);
    lemma_audience(o.hub, m.rooms[i].members);
    if rules::would_win(m.rooms[i].cells, p, color) {
        hub_laws::law_winning_line_holds_five(m.rooms[i].cells, p, color);
    }
}

/// Who puts a stone where none can be put is out: the game is over, the board stays, and everyone in the
/// room is told who it was and how the game ended.
pub proof fn law_illegal_move_disqualifies(
    m: HubModel,
    i: int,
    k: int,
    id: u64,
    room_name: String,
    color: Piece,
    p: Position,
    now: u128,
    date: Seq<char>,
)
    requires
        is_sound(m),
        is_room(m, i, room_name@),
        may_move(m, i, k, id, color),
        !rules::is_free(m.rooms[i].cells, p),
    ensures
        ({
            let o = move_of(m, id, room_name, p, now, date);
            let room = m.rooms[i];
            let after = o.hub.rooms[i];
            let end = if color == Piece::Black {
                GameState::BlackDisqualified
            } else {
                GameState::WhiteDisqualified
            };
            &&& only_room(m, o.hub, i)
            &&& after.cells == room.cells
            &&& after.moves == room.moves
            &&& !after.started
            &&& after.game_over == Some(end)
            &&& o.told matches Ok(told) && told.len() == 2 && reaches_all(o.hub, room.members, told[0].to)
                && reaches_all(o.hub, room.members, told[1].to) && (told[0].event matches EventModel::PlayerDisqualified(
                user,
                reason,
            ) && user.id == model::user_id(id) && reason == DisqualificationReason::IllegalMove) && (told[1].event
                matches EventModel::GameOver(state, _, points) && state == end && points == Some(
                Seq::<crate::protocol::Coordinate>::empty(),
            ))
        }),
{
    lemma_may_move(m, i, k, id, color, room_name@);
    let o = move_of(m, id, room_name, p, now, date);
    lemma_audience(o.hub, m.rooms[i].members);
}

/// The time of a turn counts for the player who moves, in whole milliseconds, and not for the other.
pub proof fn law_a_turn_is_timed_for_its_player(
    m: HubModel,
    i: int,
    k: int,
    id: u64,
    room_name: String,
    color: Piece,
    p: Position,
    now: u128,
    date: Seq<char>,
    start: u128,
)
    requires
        is_sound(m),
        is_room(m, i, room_name@),
        may_move(m, i, k, id, color),
        m.rooms[i].turn_started_at == Some(start),
        start <= now,
        now - start < 1_000_000_000_000_000_000,
        m.rooms[i].black_time_ms < 1_000_000_000_000,
        m.rooms[i].white_time_ms < 1_000_000_000_000,
    ensures
        ({
            let o = move_of(m, id, room_name, p, now, date);
            let room = m.rooms[i];
            let after = o.hub.rooms[i];
            let black = after.black_time_ms - room.black_time_ms;
            let white = after.white_time_ms - room.white_time_ms;
            let used = if color == Piece::Black {
                black
            } else {
                white
            };
            &&& color == Piece::Black ==> white == 0
            &&& color == Piece::White ==> black == 0
            &&& 1_000_000 * used <= now - start < 1_000_000 * (used + 1)
        }),
{
    lemma_may_move(m, i, k, id, color, room_name@);
}

/// A move is refused, and changes nothing, from anyone but the player whose turn it is in a game that is
/// running.
pub proof fn law_only_who_is_to_move_moves(
    m: HubModel,
    id: u64,
    room_name: String,
    p: Position,
    now: u128,
    date: Seq<char>,
)
    requires
        is_sound(m),
    ensures
        move_of(m, id, room_name, p, now, date).told is Ok <==> exists|i: int, k: int, color: Piece|
            is_room(m, i, room_name@) && #[trigger] may_move(m, i, k, id, color),
        move_of(m, id, room_name, p, now, date).told is Err ==> move_of(m, id, room_name, p, now, date).hub == m,
{
    hub_laws::lemma_room_place(m.rooms, room_name@, 0);
    let o = move_of(m, id, room_name, p, now, date);
    if o.told is Ok {
        let i = model::room_place(m.rooms, room_name@, 0)->0;
        let room = m.rooms[i];
        lemma_first_member(room.members, id, 0);
        let k = model::member_place(room.members, id, 0)->0;
        let color = room.members[k].kind->Player_0;
        assert(is_room(m, i, room_name@) && may_move(m, i, k, id, color));
    }
    if exists|i: int, k: int, color: Piece| is_room(m, i, room_name@) && #[trigger] may_move(m, i, k, id, color) {
        let (i, k, color) = choose|i: int, k: int, color: Piece|
            is_room(m, i, room_name@) && #[trigger] may_move(m, i, k, id, color);
        lemma_may_move(m, i, k, id, color, room_name@);
    }
}

proof fn lemma_first_member(members: Seq<RoomMember>, id: u64, i: int)
    requires
        0 <= i,
        forall|j: int| 0 <= j < i && j < members.len() ==> (#[trigger] members[j]).connection_id != id,
    ensures
        model::member_place(members, id, i) matches Some(k) ==> 0 <= k < members.len() && members[k].connection_id == id
            && forall|j: int| 0 <= j < k ==> (#[trigger] members[j]).connection_id != id,
    decreases members.len() - i,
{
    if i < members.len() && members[i].connection_id != id {
        lemma_first_member(members, id, i + 1);
    }
}

/// What a refused move is told is so: there is no such room, its game is over, or has not begun, or who
/// moves is not in the room, only watches, or plays the colour that is not to move.
pub proof fn law_refused_move_is_told_why(
    m: HubModel,
    id: u64,
    room_name: String,
    p: Position,
    now: u128,
    date: Seq<char>,
)
    requires
        is_sound(m),
    ensures
        move_of(m, id, room_name, p, now, date).told matches Err(f) ==> {
            ||| f.0 == HubProblem::RoomNotFound && forall|i: int| !#[trigger] is_room(m, i, room_name@)
            ||| exists|i: int| #[trigger]
                is_room(m, i, room_name@) && {
                    let room = m.rooms[i];
                    match f.0 {
                        HubProblem::GameIsOver => room.game_over is Some,
                        HubProblem::GameNotStarted => room.game_over is None && !room.started,
                        HubProblem::NotInRoom => room.started && !has_member(room.members, id),
                        HubProblem::ObserversCannotPlay => room.started && exists|k: int| #[trigger]
                            is_member(room, k, id) && room.members[k].kind == MemberKind::Observer,
                        HubProblem::NotYourTurn => room.started && exists|k: int| #[trigger]
                            is_member(room, k, id) && (room.members[k].kind matches MemberKind::Player(color)
                                && room.player_turn != Some(color)),
                        _ => false,
                    }
                }
        },
{
    hub_laws::lemma_room_place(m.rooms, room_name@, 0);
    if let Some(i) = model::room_place(m.rooms, room_name@, 0) {
        assert(is_room(m, i, room_name@));
        let room = m.rooms[i];
        lemma_first_member(room.members, id, 0);
        hub_laws::lemma_member_place(room.members, id, 0);
        if let Some(k) = model::member_place(room.members, id, 0) {
            assert(is_member(room, k, id));
        }
    }
}

/// A request.
pub open spec fn asks(m: HubModel, id: u64, command: ClientCommand, now: u128, date: Seq<char>) -> Outcome {
    server::outcome_of(m, id, command, now, date)
}

/// A room that is made is there then, with an empty board, nobody in it and no game, and whoever made it
/// owns it; rooms with other names stay as they are.
pub proof fn law_created_room_is_empty(m: HubModel, id: u64, room_name: String, seconds: u32, now: u128, date: Seq<char>)
    requires
        is_sound(m),
    ensures
        ({
            let command = ClientCommand::CreateTwoPlayerRoom { room_name, move_time_seconds: seconds };
            let after = asks(m, id, command, now, date).hub;
            &&& exists|i: int| #[trigger]
                is_room(after, i, room_name@) && {
                    let room = after.rooms[i];
                    &&& room.owner == id
                    &&& room.move_time_seconds == seconds
                    &&& room.members.len() == 0
                    &&& room.moves.len() == 0
                    &&& forall|r: int, c: int| #[trigger] rules::at(room.cells, r, c) is None
                    &&& !room.started
                    &&& room.game_over is None
                    &&& room.black_time_ms == 0
                    &&& room.white_time_ms == 0
                }
            &&& after.connections == m.connections
            &&& forall|i: int|
                0 <= i < m.rooms.len() && m.rooms[i].name != room_name@ ==> after.rooms[i] == #[trigger] m.rooms[i]
        }),
{
    let command = ClientCommand::CreateTwoPlayerRoom { room_name, move_time_seconds: seconds };
    let after = asks(m, id, command, now, date).hub;
    hub_laws::lemma_room_place(m.rooms, room_name@, 0);
    let i = match model::room_place(m.rooms, room_name@, 0) {
        Some(i) => i,
        None => m.rooms.len() as int,
    };
    assert(is_room(after, i, room_name@));
    let room = after.rooms[i];
    assert forall|r: int, c: int| #[trigger] rules::at(room.cells, r, c) is None by {}
}

/// A player with the colour `color` is among `members`.
pub open spec fn plays(members: Seq<RoomMember>, color: Piece) -> bool {
    exists|k: int| 0 <= k < members.len() && (#[trigger] members[k]).kind == MemberKind::Player(color)
}

/// Nobody among `members` plays.
pub open spec fn nobody_plays(members: Seq<RoomMember>) -> bool {
    forall|k: int| 0 <= k < members.len() ==> (#[trigger] members[k]).kind == MemberKind::Observer
}

/// Just one of `members`, at place `k`, plays.
pub open spec fn one_plays(members: Seq<RoomMember>, k: int) -> bool {
    &&& 0 <= k < members.len()
    &&& members[k].kind is Player
    &&& forall|j: int| 0 <= j < members.len() && j != k ==> (#[trigger] members[j]).kind == MemberKind::Observer
}

/// Two of `members` play.
pub open spec fn two_play(members: Seq<RoomMember>, j: int, k: int) -> bool {
    0 <= j < k < members.len() && members[j].kind is Player && members[k].kind is Player
}

proof fn lemma_players(members: Seq<RoomMember>)
    ensures
        model::player_count(members) >= 0,
        nobody_plays(members) ==> model::player_count(members) == 0,
        forall|k: int| #[trigger] one_plays(members, k) ==> model::player_count(members) == 1,
        forall|k: int| 0 <= k < members.len() && (#[trigger] members[k]).kind is Player ==> model::player_count(members) >= 1,
        forall|j: int, k: int| #[trigger] two_play(members, j, k) ==> model::player_count(members) >= 2,
    decreases members.len(),
{
    if members.len() > 0 {
        let before = members.drop_last();
        lemma_players(before);
        let last = members.len() - 1;
        if nobody_plays(members) {
            assert(members[last].kind == MemberKind::Observer);
            assert forall|k: int| 0 <= k < before.len() implies (#[trigger] before[k]).kind == MemberKind::Observer by {
                assert(members[k].kind == MemberKind::Observer);
            }
        }
        assert forall|k: int| #[trigger] one_plays(members, k) implies model::player_count(members) == 1 by {
            if k == last {
                assert forall|j: int| 0 <= j < before.len() implies (#[trigger] before[j]).kind == MemberKind::Observer by {
                    assert(members[j].kind == MemberKind::Observer);
                }
            } else {
                assert forall|j: int| 0 <= j < before.len() && j != k implies (#[trigger] before[j]).kind
                    == MemberKind::Observer by {
                    assert(members[j].kind == MemberKind::Observer);
                }
                assert(one_plays(before, k));
                assert(members[last].kind == MemberKind::Observer);
            }
        }
        assert forall|k: int| 0 <= k < members.len() && (#[trigger] members[k]).kind is Player implies model::player_count(
            members,
        ) >= 1 by {
            if k < last {
                assert(before[k].kind is Player);
            }
        }
        assert forall|j: int, k: int| #[trigger] two_play(members, j, k) implies model::player_count(members) >= 2 by {
            assert(before[j].kind is Player);
            if k < last {
                assert(two_play(before, j, k));
            }
        }
    }
}

/// Who joins a room is in it then, and everyone in it is told. The owner plays Black; so does the first to
/// play; the second plays White, and all others watch. All other members stay what they are.
pub proof fn law_join_gives_the_next_role(m: HubModel, i: int, c: int, id: u64, room_name: String, now: u128, date: Seq<char>)
    requires
        is_sound(m),
        is_room(m, i, room_name@),
        0 <= c < m.connections.len(),
        m.connections[c].id == id,
        m.rooms[i].owner == id || has_member(m.rooms[i].members, m.rooms[i].owner),
    ensures
        ({
            let o = asks(m, id, ClientCommand::JoinRoom { room_name }, now, date);
            let before = m.rooms[i].members;
            let after = o.hub.rooms[i].members;
            let told = o.told->Ok_0[0];
            &&& exists|k: int| #[trigger]
                is_member(o.hub.rooms[i], k, id) && {
                    &&& m.rooms[i].owner == id ==> after[k].kind == MemberKind::Player(Piece::Black)
                    &&& nobody_plays(before) ==> after[k].kind == MemberKind::Player(Piece::Black)
                    &&& m.rooms[i].owner != id && (exists|j: int| one_plays(before, j)) ==> after[k].kind
                        == MemberKind::Player(Piece::White)
                    &&& m.rooms[i].owner != id && (exists|j: int, l: int| two_play(before, j, l)) ==> after[k].kind
                        == MemberKind::Observer
                    &&& forall|j: int| 0 <= j < before.len() && j != k ==> after[j] == #[trigger] before[j]
                }
            &&& o.hub.connections[c].room_name == Some(room_name@)
            &&& o.hub.rooms[i].cells == m.rooms[i].cells
            &&& o.hub.rooms[i].owner == m.rooms[i].owner
            &&& o.told is Ok
            &&& o.told->Ok_0.len() == 1
            &&& reaches_all(m, after, told.to)
            &&& told.event matches EventModel::UserJoined(user, _) && user.id == model::user_id(id) && user.username
                == m.connections[c].username
        }),
{
    let room = m.rooms[i];
    lemma_room(m, i, room_name@);
    lemma_connection(m, c, id);
    hub_laws::lemma_member_place(room.members, room.owner, 0);
    if room.owner != id {
        let k = choose|k: int| 0 <= k < room.members.len() && (#[trigger] room.members[k]).connection_id == room.owner;
        assert(room.members[k].connection_id == room.owner);
    }
    lemma_players(room.members);
    lemma_first_member(room.members, id, 0);
    hub_laws::lemma_member_place(room.members, id, 0);
    let o = asks(m, id, ClientCommand::JoinRoom { room_name }, now, date);
    lemma_audience(m, o.hub.rooms[i].members);
    let k = match model::member_place(room.members, id, 0) {
        Some(k) => k,
        None => room.members.len() as int,
    };
    let after = o.hub.rooms[i].members;
    assert forall|j: int| 0 <= j < k implies (#[trigger] after[j]).connection_id != id by {
        assert(room.members[j].connection_id != id);
    }
    assert(is_member(o.hub.rooms[i], k, id));
}

proof fn lemma_connection(m: HubModel, c: int, id: u64)
    requires
        is_sound(m),
        0 <= c < m.connections.len(),
        m.connections[c].id == id,
    ensures
        model::connection_place(m.connections, id, 0) == Some(c),
{
    hub_laws::lemma_connection_place(m.connections, id, 0);
    let k = model::connection_place(m.connections, id, 0)->0;
    if k < c {
        assert(m.connections[k].id != m.connections[c].id);
    } else if c < k {
        assert(m.connections[c].id != m.connections[k].id);
    }
}

/// The owner, and nobody else, starts a game that is not running. Black begins on the empty board; after
/// moves it is the turn of the colour that did not move last. Everyone in the room is told.
pub proof fn law_owner_starts_the_game(m: HubModel, i: int, id: u64, room_name: String, now: u128, date: Seq<char>)
    requires
        is_sound(m),
        is_room(m, i, room_name@),
        !m.rooms[i].started,
    ensures
        ({
            let o = asks(m, id, ClientCommand::StartGame { room_name }, now, date);
            let room = m.rooms[i];
            let after = o.hub.rooms[i];
            &&& o.told is Ok <==> room.owner == id
            &&& o.told is Err ==> o.hub == m
            &&& o.told matches Ok(told) ==> {
                &&& only_room(m, o.hub, i)
                &&& after.started
                &&& after.cells == room.cells
                &&& after.turn_started_at == Some(now)
                &&& room.moves.len() == 0 ==> after.player_turn == Some(Piece::Black)
                &&& room.moves.len() > 0 ==> after.player_turn is Some && after.player_turn != Some(room.moves.last().color)
                &&& told.len() == 1
                &&& reaches_all(o.hub, room.members, told[0].to)
                &&& told[0].event matches EventModel::GameStarted(turn) && after.player_turn == Some(turn)
            }
        }),
{
    lemma_room(m, i, room_name@);
    let o = asks(m, id, ClientCommand::StartGame { room_name }, now, date);
    lemma_audience(o.hub, m.rooms[i].members);
}

proof fn lemma_without(members: Seq<RoomMember>, id: u64)
    ensures
        !has_member(model::without(members, id), id),
        forall|x: RoomMember| #[trigger]
            model::without(members, id).contains(x) <==> members.contains(x) && x.connection_id != id,
    decreases members.len(),
{
    let after = model::without(members, id);
    if members.len() > 0 {
        let shorter = members.drop_last();
        let before = model::without(shorter, id);
        lemma_without(shorter, id);
        assert forall|x: RoomMember| #[trigger] after.contains(x) <==> members.contains(x) && x.connection_id != id by {
            assert(before.contains(x) <==> shorter.contains(x) && x.connection_id != id);
            if members.contains(x) {
                let k = choose|k: int| 0 <= k < members.len() && members[k] == x;
                if k < shorter.len() {
                    assert(shorter[k] == x);
                }
            }
            if shorter.contains(x) {
                let k = choose|k: int| 0 <= k < shorter.len() && shorter[k] == x;
                assert(members[k] == x);
            }
            assert(members[members.len() - 1] == members.last());
            if after.len() > before.len() {
                assert(after[before.len() as int] == members.last());
                if before.contains(x) {
                    let k = choose|k: int| 0 <= k < before.len() && before[k] == x;
                    assert(after[k] == x);
                }
            }
        }
    }
    if has_member(after, id) {
        let k = choose|k: int| 0 <= k < after.len() && (#[trigger] after[k]).connection_id == id;
        assert(after.contains(after[k]));
    }
}

/// Who leaves a room is not in it then; everyone else stays, and is told who left.
pub proof fn law_who_leaves_is_gone(m: HubModel, i: int, id: u64, room_name: String, now: u128, date: Seq<char>)
    requires
        is_sound(m),
        is_room(m, i, room_name@),
    ensures
        ({
            let o = asks(m, id, ClientCommand::LeaveRoom { room_name }, now, date);
            let before = m.rooms[i].members;
            let after = o.hub.rooms[i].members;
            &&& !has_member(after, id)
            &&& forall|x: RoomMember| #[trigger] after.contains(x) <==> before.contains(x) && x.connection_id != id
            &&& forall|c: int|
                0 <= c < m.connections.len() && (#[trigger] m.connections[c]).id == id ==> o.hub.connections[c].room_name
                    is None && o.hub.connections[c].username == m.connections[c].username
            &&& forall|j: int| 0 <= j < m.rooms.len() && j != i ==> o.hub.rooms[j] == #[trigger] m.rooms[j]
            &&& o.hub.rooms[i].cells == m.rooms[i].cells
            &&& o.told matches Ok(told) && told.len() == 1 && reaches_all(m, after, told[0].to) && told[0].event
                == EventModel::PlayerLeft(model::user_id(id))
        }),
{
    lemma_room(m, i, room_name@);
    lemma_without(m.rooms[i].members, id);
    let o = asks(m, id, ClientCommand::LeaveRoom { room_name }, now, date);
    lemma_audience(m, o.hub.rooms[i].members);
    assert forall|c: int| 0 <= c < m.connections.len() && (#[trigger] m.connections[c]).id == id implies
        o.hub.connections[c].room_name is None && o.hub.connections[c].username == m.connections[c].username by {
        lemma_connection(m, c, id);
    }
}

/// The owner, and nobody else, closes a room: there is none of that name then, nobody is in it, all other
/// rooms stay, and everyone who was in it is told.
pub proof fn law_owner_closes_the_room(m: HubModel, i: int, id: u64, room_name: String, now: u128, date: Seq<char>)
    requires
        is_sound(m),
        is_room(m, i, room_name@),
    ensures
        ({
            let o = asks(m, id, ClientCommand::CloseRoom { room_name }, now, date);
            &&& o.told is Ok <==> m.rooms[i].owner == id
            &&& o.told is Err ==> o.hub == m
            &&& o.told matches Ok(told) ==> {
                &&& forall|j: int| !#[trigger] is_room(o.hub, j, room_name@)
                &&& forall|r: RoomModel| #[trigger]
                    o.hub.rooms.contains(r) <==> m.rooms.contains(r) && r.name != room_name@
                &&& o.hub.connections.len() == m.connections.len()
                &&& forall|c: int|
                    0 <= c < m.connections.len() ==> (#[trigger] o.hub.connections[c]).room_name != Some(room_name@)
                        && o.hub.connections[c].id == m.connections[c].id
                &&& told.len() == 1
                &&& reaches_all(m, m.rooms[i].members, told[0].to)
                &&& told[0].event == EventModel::RoomClosed(RoomClosedReason::ClosedByOwner)
            }
        }),
{
    lemma_room(m, i, room_name@);
    lemma_audience(m, m.rooms[i].members);
    let o = asks(m, id, ClientCommand::CloseRoom { room_name }, now, date);
    if m.rooms[i].owner == id {
        let rooms = o.hub.rooms;
        assert forall|j: int| !#[trigger] is_room(o.hub, j, room_name@) by {
            if 0 <= j < rooms.len() {
                if j < i {
                    assert(m.rooms[j].name != m.rooms[i].name);
                } else {
                    assert(m.rooms[i].name != m.rooms[j + 1].name);
                }
            }
        }
        assert forall|r: RoomModel| #[trigger] rooms.contains(r) <==> m.rooms.contains(r) && r.name != room_name@ by {
            if rooms.contains(r) {
                let j = choose|j: int| 0 <= j < rooms.len() && rooms[j] == r;
                assert(!is_room(o.hub, j, room_name@));
                let k = if j < i {
                    j
                } else {
                    j + 1
                };
                assert(m.rooms[k] == r);
            }
            if m.rooms.contains(r) && r.name != room_name@ {
                let k = choose|k: int| 0 <= k < m.rooms.len() && m.rooms[k] == r;
                let j = if k < i {
                    k
                } else {
                    k - 1
                };
                assert(rooms[j] == r);
            }
        }
    }
}

/// The owner, and nobody else, sets the time for a move: what was asked for, but no less than 2 seconds
/// and no more than 300. Everyone in the room is told.
pub proof fn law_owner_sets_the_time(
    m: HubModel,
    i: int,
    id: u64,
    room_id: String,
    seconds: u32,
    now: u128,
    date: Seq<char>,
)
    requires
        is_sound(m),
        is_room(m, i, room_id@),
    ensures
        ({
            let o = asks(m, id, ClientCommand::SetMoveTime { room_id, seconds }, now, date);
            let after = o.hub.rooms[i];
            &&& o.told is Ok <==> m.rooms[i].owner == id
            &&& o.told is Err ==> o.hub == m
            &&& o.told matches Ok(told) ==> {
                &&& only_room(m, o.hub, i)
                &&& after == (RoomModel { move_time_seconds: after.move_time_seconds, ..m.rooms[i] })
                &&& 2 <= after.move_time_seconds <= 300
                &&& 2 <= seconds <= 300 ==> after.move_time_seconds == seconds
                &&& seconds < 2 ==> after.move_time_seconds == 2
                &&& seconds > 300 ==> after.move_time_seconds == 300
                &&& told.len() == 1
                &&& reaches_all(o.hub, after.members, told[0].to)
                &&& told[0].event == EventModel::SettingsChanged(after.move_time_seconds)
            }
        }),
{
    lemma_room(m, i, room_id@);
    let o = asks(m, id, ClientCommand::SetMoveTime { room_id, seconds }, now, date);
    lemma_audience(o.hub, m.rooms[i].members);
}

/// A member other than `id` plays `color`.
pub open spec fn taken(members: Seq<RoomMember>, id: u64, color: Piece) -> bool {
    exists|j: int|
        0 <= j < members.len() && (#[trigger] members[j]).connection_id != id && members[j].kind == MemberKind::Player(
            color,
        )
}

/// A member changes roles while no game is running: to watch, or to play the colour preferred, Black where
/// none is, if nobody else plays it, else the other one, if nobody else plays that. Where both are taken
/// the request is refused. All other members stay what they are, and everyone is told.
pub proof fn law_role_changes_to_a_free_colour(
    m: HubModel,
    i: int,
    k: int,
    id: u64,
    room_id: String,
    new_role: Role,
    preferred_color: Option<Piece>,
    now: u128,
    date: Seq<char>,
)
    requires
        is_sound(m),
        is_room(m, i, room_id@),
        is_member(m.rooms[i], k, id),
    ensures
        ({
            let o = asks(m, id, ClientCommand::ChangeRole { room_id, new_role, preferred_color }, now, date);
            let before = m.rooms[i].members;
            let after = o.hub.rooms[i].members;
            let wanted = if preferred_color == Some(Piece::White) {
                Piece::White
            } else {
                Piece::Black
            };
            &&& o.told is Err <==> m.rooms[i].started || new_role == Role::Player && taken(before, id, Piece::Black)
                && taken(before, id, Piece::White)
            &&& o.told is Err ==> o.hub == m
            &&& o.told matches Ok(told) ==> {
                &&& only_room(m, o.hub, i)
                &&& after.len() == before.len()
                &&& forall|j: int| 0 <= j < before.len() && j != k ==> after[j] == #[trigger] before[j]
                &&& after[k].connection_id == id
                &&& new_role == Role::Observer ==> after[k].kind == MemberKind::Observer
                &&& new_role == Role::Player ==> after[k].kind is Player
                &&& new_role == Role::Player && !taken(before, id, wanted) ==> after[k].kind == MemberKind::Player(wanted)
                &&& after[k].kind matches MemberKind::Player(color) ==> !taken(before, id, color)
                &&& o.hub.rooms[i].cells == m.rooms[i].cells
                &&& told.len() == 1
                &&& reaches_all(o.hub, after, told[0].to)
                &&& told[0].event matches EventModel::RoleChanged(user) && user.id == model::user_id(id)
            }
        }),
{
    lemma_room(m, i, room_id@);
    lemma_member(m.rooms[i].members, id, 0, k);
    let o = asks(m, id, ClientCommand::ChangeRole { room_id, new_role, preferred_color }, now, date);
    lemma_audience(o.hub, o.hub.rooms[i].members);
    let before = m.rooms[i].members;
    assert(model::is_taken(before, id, Piece::Black) == taken(before, id, Piece::Black));
    assert(model::is_taken(before, id, Piece::White) == taken(before, id, Piece::White));
}

/// Who quits leaves the room that they are in.
pub proof fn law_quitting_is_leaving(m: HubModel, c: int, id: u64, room_name: String, now: u128, date: Seq<char>)
    requires
        is_sound(m),
        0 <= c < m.connections.len(),
        m.connections[c].id == id,
    ensures
        m.connections[c].room_name == Some(room_name@) ==> asks(m, id, ClientCommand::Quit, now, date) == asks(
            m,
            id,
            ClientCommand::LeaveRoom { room_name },
            now,
            date,
        ),
        m.connections[c].room_name is None ==> asks(m, id, ClientCommand::Quit, now, date).hub == m,
{
    lemma_connection(m, c, id);
}

/// The owner, and nobody else, preloads the board of a room with moves that can all be made: they are its
/// moves then, the board is what they make, and the game begins anew. Everyone in the room is told. The
/// history of moves, as the hub writes it, is read as these moves.
pub proof fn law_owner_preloads_the_board(
    m: HubModel,
    i: int,
    id: u64,
    room_id: String,
    moves_history: String,
    moves: Seq<Move>,
    now: u128,
    date: Seq<char>,
)
    requires
        is_sound(m),
        is_room(m, i, room_id@),
        moves_history@ == history::history_text(moves),
        history::replayed(moves) is Ok,
    ensures
        ({
            let o = asks(m, id, ClientCommand::SetInitialBoard { room_id, moves_history }, now, date);
            let after = o.hub.rooms[i];
            &&& o.told is Ok <==> m.rooms[i].owner == id
            &&& o.told is Err ==> o.hub == m
            &&& o.told matches Ok(told) ==> {
                &&& only_room(m, o.hub, i)
                &&& after.moves == moves
                &&& rules::stones(after.cells) == moves.len()
                &&& forall|k: int|
                    0 <= k < moves.len() ==> rules::at(
                        after.cells,
                        (#[trigger] moves[k]).row as int,
                        moves[k].column as int,
                    ) == Some(moves[k].color)
                &&& !after.started
                &&& after.game_over is None
                &&& after.black_time_ms == 0 && after.white_time_ms == 0
                &&& after.initial_history == Some(moves_history@)
                &&& moves.len() == 0 ==> after.player_turn == Some(Piece::Black)
                &&& moves.len() > 0 ==> after.player_turn is Some && after.player_turn != Some(moves.last().color)
                &&& after.members == m.rooms[i].members
                &&& told.len() == 1
                &&& reaches_all(o.hub, after.members, told[0].to)
                &&& told[0].event == EventModel::InitialBoardChanged(moves_history@)
            }
        }),
{
    lemma_room(m, i, room_id@);
    history::law_history_round_trip(moves);
    history::law_every_move_is_a_stone(moves);
    let o = asks(m, id, ClientCommand::SetInitialBoard { room_id, moves_history }, now, date);
    lemma_audience(o.hub, m.rooms[i].members);
    assert forall|k: int| 0 <= k < moves.len() implies rules::at(
        history::replayed(moves)->Ok_0,
        (#[trigger] moves[k]).row as int,
        moves[k].column as int,
    ) == Some(moves[k].color) by {
        bot_laws::law_board_holds_its_moves(moves, k);
    }
}

/// What is left of a room when the connection `id` is lost.
pub open spec fn what_stays(room: RoomModel, id: u64, after: RoomModel) -> bool {
    &&& after == (RoomModel { members: after.members, ..room })
    &&& forall|x: RoomMember| #[trigger] after.members.contains(x) <==> room.members.contains(x) && x.connection_id != id
}

proof fn lemma_rooms_left(rooms: Seq<RoomModel>, id: u64, n: int)
    requires
        0 <= n <= rooms.len(),
    ensures
        forall|k: int|
            0 <= k < model::rooms_left(rooms, id, n).len() ==> !has_member(
                (#[trigger] model::rooms_left(rooms, id, n)[k]).members,
                id,
            ) && exists|j: int|
                0 <= j < n && what_stays(#[trigger] rooms[j], id, model::rooms_left(rooms, id, n)[k]) && (rooms[j].owner
                    != id || !has_member(rooms[j].members, id)),
        forall|j: int|
            0 <= j < n && (rooms[j].owner != id || !has_member(rooms[j].members, id)) ==> exists|k: int|
                0 <= k < model::rooms_left(rooms, id, n).len() && what_stays(
                    #[trigger] rooms[j],
                    id,
                    #[trigger] model::rooms_left(rooms, id, n)[k],
                ),
    decreases n,
{
    if n > 0 {
        lemma_rooms_left(rooms, id, n - 1);
        let before = model::rooms_left(rooms, id, n - 1);
        let after = model::rooms_left(rooms, id, n);
        let room = rooms[n - 1];
        hub_laws::lemma_member_place(room.members, id, 0);
        lemma_without(room.members, id);
        if model::member_place(room.members, id, 0) is Some {
            let k = model::member_place(room.members, id, 0)->0;
            assert(room.members[k].connection_id == id);
        } else {
            assert forall|x: RoomMember| room.members.contains(x) implies x.connection_id != id by {
                let k = choose|k: int| 0 <= k < room.members.len() && room.members[k] == x;
                assert(room.members[k].connection_id != id);
            }
        }
        assert forall|k: int| 0 <= k < before.len() implies after[k] == #[trigger] before[k] by {}
        if after.len() > before.len() {
            assert(what_stays(rooms[n - 1], id, after[before.len() as int]));
        }
        assert forall|k: int| 0 <= k < after.len() implies !has_member((#[trigger] after[k]).members, id) && exists|j: int|
            0 <= j < n && what_stays(#[trigger] rooms[j], id, after[k]) && (rooms[j].owner != id || !has_member(
                rooms[j].members,
                id,
            )) by {
            if k < before.len() {
                let j = choose|j: int|
                    0 <= j < n - 1 && what_stays(#[trigger] rooms[j], id, before[k]) && (rooms[j].owner != id
                        || !has_member(rooms[j].members, id));
                assert(what_stays(rooms[j], id, after[k]));
            }
        }
        assert forall|j: int| 0 <= j < n && (rooms[j].owner != id || !has_member(rooms[j].members, id)) implies exists|
            k: int,
        | 0 <= k < after.len() && what_stays(#[trigger] rooms[j], id, #[trigger] after[k]) by {
            if j < n - 1 {
                let k = choose|k: int| 0 <= k < before.len() && what_stays(rooms[j], id, #[trigger] before[k]);
                assert(what_stays(rooms[j], id, after[k]));
            } else {
                assert(what_stays(rooms[j], id, after[before.len() as int]));
            }
        }
    }
}

proof fn lemma_busy_rooms(rooms: Seq<RoomModel>, n: int)
    requires
        0 <= n <= rooms.len(),
    ensures
        forall|r: RoomModel| #[trigger]
            model::busy_rooms(rooms, n).contains(r) <==> exists|k: int| 0 <= k < n && #[trigger] rooms[k] == r
                && !model::is_idle(r),
    decreases n,
{
    if n > 0 {
        lemma_busy_rooms(rooms, n - 1);
        let before = model::busy_rooms(rooms, n - 1);
        let after = model::busy_rooms(rooms, n);
        assert forall|r: RoomModel| #[trigger] after.contains(r) <==> exists|k: int|
            0 <= k < n && #[trigger] rooms[k] == r && !model::is_idle(r) by {
            assert(before.contains(r) <==> exists|k: int|
                0 <= k < n - 1 && #[trigger] rooms[k] == r && !model::is_idle(r));
            if before.contains(r) {
                let j = choose|j: int| 0 <= j < before.len() && before[j] == r;
                assert(after[j] == r);
            }
            if after.contains(r) && !before.contains(r) {
                let j = choose|j: int| 0 <= j < after.len() && after[j] == r;
                if j < before.len() {
                    assert(before[j] == r);
                }
                assert(rooms[n - 1] == r);
            }
            if rooms[n - 1] == r && !model::is_idle(r) {
                assert(after[after.len() - 1] == r);
            }
        }
    }
}

/// When a connection is lost it is gone, and in no room any more. A room that it owned and was in is gone
/// too; every other room with somebody in it, or with a game, stays, with all its other members and its
/// game as it was.
pub proof fn law_lost_connection_is_gone(m: HubModel, id: u64)
    requires
        is_sound(m),
    ensures
        ({
            let after = model::lost(m, id).hub;
            &&& !has_connection(after, id)
            &&& forall|c: model::ConnectionModel| #[trigger]
                after.connections.contains(c) <==> m.connections.contains(c) && c.id != id
            &&& forall|r: RoomModel| #[trigger]
                after.rooms.contains(r) ==> !has_member(r.members, id) && !(r.members.len() == 0 && !r.started
                    && r.game_over is None) && exists|j: int|
                    0 <= j < m.rooms.len() && what_stays(#[trigger] m.rooms[j], id, r) && (m.rooms[j].owner != id
                        || !has_member(m.rooms[j].members, id))
            &&& forall|j: int|
                0 <= j < m.rooms.len() && (m.rooms[j].owner != id || !has_member(m.rooms[j].members, id)) ==> exists|
                    r: RoomModel,
                |
                    what_stays(#[trigger] m.rooms[j], id, r) && (#[trigger] after.rooms.contains(r) || r.members.len()
                        == 0 && !r.started && r.game_over is None)
        }),
{
    let after = model::lost(m, id).hub;
    let stay = model::rooms_left(m.rooms, id, m.rooms.len() as int);
    lemma_rooms_left(m.rooms, id, m.rooms.len() as int);
    lemma_busy_rooms(stay, stay.len() as int);
    hub_laws::lemma_connection_place(m.connections, id, 0);
    assert forall|c: model::ConnectionModel| #[trigger] after.connections.contains(c) <==> m.connections.contains(c)
        && c.id != id by {
        lemma_disconnected(m, id, c);
    }
    if has_connection(after, id) {
        let k = choose|k: int| 0 <= k < after.connections.len() && (#[trigger] after.connections[k]).id == id;
        assert(after.connections.contains(after.connections[k]));
    }
    assert forall|r: RoomModel| #[trigger] after.rooms.contains(r) implies !has_member(r.members, id) && !(
    r.members.len() == 0 && !r.started && r.game_over is None) && exists|j: int|
        0 <= j < m.rooms.len() && what_stays(#[trigger] m.rooms[j], id, r) && (m.rooms[j].owner != id || !has_member(
            m.rooms[j].members,
            id,
        )) by {
        let k = choose|k: int| 0 <= k < stay.len() && #[trigger] stay[k] == r && !model::is_idle(r);
        assert(!has_member(stay[k].members, id));
    }
    assert forall|j: int|
        0 <= j < m.rooms.len() && (m.rooms[j].owner != id || !has_member(m.rooms[j].members, id)) implies exists|
        r: RoomModel,
    |
        what_stays(#[trigger] m.rooms[j], id, r) && (#[trigger] after.rooms.contains(r) || r.members.len() == 0
            && !r.started && r.game_over is None) by {
        let k = choose|k: int| 0 <= k < stay.len() && what_stays(m.rooms[j], id, #[trigger] stay[k]);
        let r = stay[k];
        assert(stay[k] == r);
        assert(after.rooms.contains(r) || model::is_idle(r));
        assert(what_stays(m.rooms[j], id, r));
    }
}

proof fn lemma_disconnected(m: HubModel, id: u64, c: model::ConnectionModel)
    requires
        is_sound(m),
    ensures
        model::disconnected(m.connections, id).contains(c) <==> m.connections.contains(c) && c.id != id,
{
    let all = m.connections;
    let after = model::disconnected(all, id);
    hub_laws::lemma_connection_place(all, id, 0);
    match model::connection_place(all, id, 0) {
        Some(k) => {
            if after.contains(c) {
                let j = choose|j: int| 0 <= j < after.len() && after[j] == c;
                if j < k {
                    assert(all[j] == c);
                    assert(all[j].id != all[k].id);
                } else {
                    assert(all[j + 1] == c);
                    assert(all[k].id != all[j + 1].id);
                }
            }
            if all.contains(c) && c.id != id {
                let j = choose|j: int| 0 <= j < all.len() && all[j] == c;
                if j < k {
                    assert(after[j] == c);
                } else {
                    assert(after[j - 1] == c);
                }
            }
        },
        None => {
            if all.contains(c) {
                let j = choose|j: int| 0 <= j < all.len() && all[j] == c;
                assert(all[j].id != id);
            }
        },
    }
}

/// Who may join a room whose owner is there is told so: who they are there, whether they own the room, the
/// time for a move, and how the game ended, if it did. While the owner is not there, anyone else is told
/// that the room does not exist, and nothing changes.
pub proof fn law_join_is_answered(m: HubModel, i: int, c: int, id: u64, room_name: String, now: u128, date: Seq<char>)
    requires
        is_sound(m),
        is_room(m, i, room_name@),
        0 <= c < m.connections.len(),
        m.connections[c].id == id,
    ensures
        ({
            let room = m.rooms[i];
            let o = asks(m, id, ClientCommand::JoinRoom { room_name }, now, date);
            model::join_answer(m, id, room_name@) matches Ok(answer) && {
                &&& answer.success <==> room.owner == id || has_member(room.members, room.owner)
                &&& !answer.success ==> answer.error == Some(JoinRoomError::RoomDoesNotExist) && answer.data is None && o.hub
                    == m
                &&& answer.success ==> answer.error is None && (answer.data matches Some(data) && {
                    &&& data.user.id == model::user_id(id)
                    &&& data.user.username == m.connections[c].username
                    &&& data.lobby_data.is_room_owner <==> room.owner == id
                    &&& data.lobby_data.move_time_seconds == room.move_time_seconds
                    &&& data.lobby_data.initial_board_moves_history == room.initial_history
                    &&& data.game_data is Some <==> room.started || room.game_over is Some
                    &&& data.game_over_data is Some <==> room.game_over is Some
                    &&& data.game_over_data matches Some(end) ==> Some(end.game_state) == room.game_over
                        && end.moves_history == history::history_text(room.moves)
                    &&& exists|k: int| #[trigger]
                        is_member(o.hub.rooms[i], k, id) && match o.hub.rooms[i].members[k].kind {
                            MemberKind::Player(color) => data.user.role == Role::Player && (data.user.game_info
                                matches Some(info) && info.color == color),
                            MemberKind::Observer => data.user.role == Role::Observer && data.user.game_info is None,
                        }
                })
            }
        }),
{
    let room = m.rooms[i];
    lemma_room(m, i, room_name@);
    lemma_connection(m, c, id);
    hub_laws::lemma_member_place(room.members, room.owner, 0);
    if let Some(k) = model::member_place(room.members, room.owner, 0) {
        assert(room.members[k].connection_id == room.owner);
    }
    if room.owner == id || has_member(room.members, room.owner) {
        law_join_gives_the_next_role(m, i, c, id, room_name, now, date);
        let o = asks(m, id, ClientCommand::JoinRoom { room_name }, now, date);
        lemma_first_member(room.members, id, 0);
        hub_laws::lemma_member_place(room.members, id, 0);
        let k = match model::member_place(room.members, id, 0) {
            Some(k) => k,
            None => room.members.len() as int,
        };
        let after = o.hub.rooms[i].members;
        assert forall|j: int| 0 <= j < k implies (#[trigger] after[j]).connection_id != id by {
            assert(room.members[j].connection_id != id);
        }
        assert(is_member(o.hub.rooms[i], k, id));
    }
}

/// The points that win a game lie in one straight line without a gap, each one step on from the one before.
pub proof fn law_winning_line_is_straight(before: rules::Cells, p: Position, color: Piece)
    requires
        rules::is_cells(before),
        rules::would_win(before, p, color),
    ensures
        ({
            let line = server::winning_line(rules::put(before, p, color), p, color, 0);
            exists|dr: int, dc: int| #[trigger] is_straight(line, dr, dc)
        }),
{
    let s = rules::put(before, p, color);
    hub_laws::law_winning_line_holds_five(before, p, color);
    lemma_straight(s, p, color, 0);
}

/// Each point lies one step of (dr, dc) on from the one before.
pub open spec fn is_straight(line: Seq<Position>, dr: int, dc: int) -> bool {
    &&& -1 <= dr <= 1
    &&& -1 <= dc <= 1
    &&& dr != 0 || dc != 0
    &&& forall|i: int|
        0 <= i < line.len() - 1 ==> (#[trigger] line[i + 1]).row == line[i].row + dr && line[i + 1].column
            == line[i].column + dc
}

proof fn lemma_straight(s: rules::Cells, p: Position, color: Piece, k: int)
    requires
        rules::is_cells(s),
        rules::holds(p),
        0 <= k <= 4,
        server::winning_line(s, p, color, k).len() >= 5,
    ensures
        exists|dr: int, dc: int| #[trigger] is_straight(server::winning_line(s, p, color, k), dr, dc),
    decreases 4 - k,
{
    if k < 4 {
        let (dr, dc) = rules::direction(k);
        let r = p.row as int;
        let c = p.column as int;
        let ahead = rules::run(s, r + dr, c + dc, dr, dc, color);
        let behind = rules::run(s, r - dr, c - dc, -dr, -dc, color);
        if behind + 1 + ahead >= 5 {
            rules::lemma_run(s, r + dr, c + dc, dr, dc, color);
            rules::lemma_run(s, r - dr, c - dc, -dr, -dc, color);
            server::lemma_line_stays(s, p, dr, dc, color, behind, ahead);
            let line = server::line_points(p, dr, dc, behind, ahead);
            assert forall|i: int| 0 <= i < line.len() - 1 implies (#[trigger] line[i + 1]).row == line[i].row + dr
                && line[i + 1].column == line[i].column + dc by {
                let n = i - behind;
                assert((n + 1) * dr == n * dr + dr && (n + 1) * dc == n * dc + dc) by (nonlinear_arith);
                assert(rules::on_board(r + n * dr, c + n * dc));
                assert(rules::on_board(r + (n + 1) * dr, c + (n + 1) * dc));
            }
            assert(is_straight(line, dr, dc));
        } else {
            lemma_straight(s, p, color, k + 1);
        }
    }
}

} // verus!
