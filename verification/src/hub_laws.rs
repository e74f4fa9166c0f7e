//! What holds of the hub whatever is asked of it.
use vstd::prelude::*;

use crate::board::{Move, Piece, Position};
use crate::history;
use crate::hub_model as model;
use crate::hub_model::{HubProblem, RoomMember};
use crate::protocol::ClientCommand;
use crate::rules;
use crate::server;

verus! {

/// No two connections have the same identity, no two rooms the same name, and the board of each
/// room is what its moves make of the empty board.
pub open spec fn is_sound(m: model::HubModel) -> bool {
    &&& forall|i: int, j: int|
        0 <= i < j < m.connections.len() ==> (#[trigger] m.connections[i]).id != (#[trigger] m.connections[j]).id
    &&& forall|i: int, j: int|
        0 <= i < j < m.rooms.len() ==> (#[trigger] m.rooms[i]).name != (#[trigger] m.rooms[j]).name
    &&& forall|i: int| 0 <= i < m.rooms.len() ==> board_matches(#[trigger] m.rooms[i])
}

/// The board of the room is what its moves make of the empty board.
pub open spec fn board_matches(room: model::RoomModel) -> bool {
    history::replayed(room.moves) == Ok::<rules::Cells, crate::board::BoardError>(room.cells)
}

pub proof fn lemma_room_place(rooms: Seq<model::RoomModel>, name: Seq<char>, i: int)
    requires
        0 <= i,
    ensures
        match model::room_place(rooms, name, i) {
            Some(k) => i <= k < rooms.len() && rooms[k].name == name,
            None => forall|k: int| i <= k < rooms.len() ==> (#[trigger] rooms[k]).name != name,
        },
    decreases rooms.len() - i,
{
    if i < rooms.len() && rooms[i].name != name {
        lemma_room_place(rooms, name, i + 1);
    }
}

pub proof fn lemma_connection_place(connections: Seq<model::ConnectionModel>, id: u64, i: int)
    requires
        0 <= i,
    ensures
        match model::connection_place(connections, id, i) {
            Some(k) => i <= k < connections.len() && connections[k].id == id,
            None => forall|k: int| i <= k < connections.len() ==> (#[trigger] connections[k]).id != id,
        },
    decreases connections.len() - i,
{
    if i < connections.len() && connections[i].id != id {
        lemma_connection_place(connections, id, i + 1);
    }
}

pub proof fn lemma_member_place(members: Seq<RoomMember>, id: u64, i: int)
    requires
        0 <= i,
    ensures
        match model::member_place(members, id, i) {
            Some(k) => i <= k < members.len() && members[k].connection_id == id,
            None => forall|k: int| i <= k < members.len() ==> (#[trigger] members[k]).connection_id != id,
        },
    decreases members.len() - i,
{
    if i < members.len() && members[i].connection_id != id {
        lemma_member_place(members, id, i + 1);
    }
}

/// A room may change as long as its name stays and its board matches.
proof fn lemma_sound_with_room(m: model::HubModel, i: int, room: model::RoomModel)
    requires
        is_sound(m),
        0 <= i < m.rooms.len(),
        room.name == m.rooms[i].name,
        board_matches(room),
    ensures
        is_sound(model::with_room(m, i, room)),
{
    let after = model::with_room(m, i, room);
    assert forall|j: int, k: int| 0 <= j < k < after.rooms.len() implies (#[trigger] after.rooms[j]).name != (
    #[trigger] after.rooms[k]).name by {
        assert(m.rooms[j].name != m.rooms[k].name);
    }
    assert forall|j: int| 0 <= j < after.rooms.len() implies board_matches(#[trigger] after.rooms[j]) by {
        if j != i {
            assert(board_matches(m.rooms[j]));
        }
    }
}

/// The connections may change as long as their identities stay.
proof fn lemma_sound_with_connections(m: model::HubModel, connections: Seq<model::ConnectionModel>)
    requires
        is_sound(m),
        connections.len() == m.connections.len(),
        forall|i: int| 0 <= i < connections.len() ==> (#[trigger] connections[i]).id == m.connections[i].id,
    ensures
        is_sound((model::HubModel { connections, ..m })),
{
    let after = model::HubModel { connections, ..m };
    assert forall|j: int, k: int| 0 <= j < k < after.connections.len() implies (#[trigger] after.connections[j]).id != (
    #[trigger] after.connections[k]).id by {
        assert(m.connections[j].id != m.connections[k].id);
    }
}

proof fn lemma_timed_keeps(room: model::RoomModel, color: Piece, now: u128)
    ensures
        model::timed(room, color, now).name == room.name,
        model::timed(room, color, now).moves == room.moves,
        model::timed(room, color, now).cells == room.cells,
        model::timed(room, color, now).members == room.members,
{
}

proof fn lemma_move_keeps_sound(
    m: model::HubModel,
    i: int,
    room: model::RoomModel,
    name: Seq<char>,
    mv: Move,
    now: u128,
    date: Seq<char>,
)
    requires
        is_sound(m),
        0 <= i < m.rooms.len(),
        room.name == m.rooms[i].name,
        board_matches(room),
        rules::is_free(room.cells, Position { row: mv.row, column: mv.column }),
    ensures
        is_sound(model::legal_move(m, i, room, name, mv, now, date).hub),
{
    let moves = room.moves.push(mv);
    assert(moves.drop_last() =~= room.moves);
    let p = Position { row: mv.row, column: mv.column };
    let moved = model::RoomModel {
        cells: rules::put(room.cells, p, mv.color),
        moves,
        player_turn: Some(rules::other(mv.color)),
        turn_started_at: Some(now),
        turn_start_date: Some(date),
        ..room
    };
    assert(board_matches(moved));
    match model::ending(room.cells, moved, p, mv.color) {
        None => {
            lemma_sound_with_room(m, i, moved);
        },
        Some(end) => {
            lemma_sound_with_room(m, i, model::RoomModel { started: false, game_over: Some(end.0), ..moved });
        },
    }
}

/// Whatever is asked, the hub stays sound.
pub proof fn law_requests_keep_sound(m: model::HubModel, id: u64, command: ClientCommand, now: u128, date: Seq<char>)
    requires
        is_sound(m),
    ensures
        is_sound(server::outcome_of(m, id, command, now, date).hub),
{
    lemma_connection_place(m.connections, id, 0);
    match command {
        ClientCommand::CreateTwoPlayerRoom { room_name, move_time_seconds } => {
            lemma_room_place(m.rooms, room_name@, 0);
            let room = model::new_room(room_name@, id, move_time_seconds);
            assert(board_matches(room));
            match model::room_place(m.rooms, room_name@, 0) {
                Some(i) => {
                    lemma_sound_with_room(m, i, room);
                },
                None => {
                    let after = model::room_created(m, id, room_name@, move_time_seconds);
                    assert forall|j: int, k: int| 0 <= j < k < after.rooms.len() implies (
                    #[trigger] after.rooms[j]).name != (#[trigger] after.rooms[k]).name by {
                        assert(m.rooms[j].name != room_name@);
                        if k < m.rooms.len() {
                            assert(m.rooms[j].name != m.rooms[k].name);
                        }
                    }
                    assert forall|j: int| 0 <= j < after.rooms.len() implies board_matches(
                        #[trigger] after.rooms[j],
                    ) by {
                        if j < m.rooms.len() {
                            assert(board_matches(m.rooms[j]));
                        }
                    }
                },
            }
        },
        ClientCommand::SetInitialBoard { room_id, moves_history } => {
            lemma_room_place(m.rooms, room_id@, 0);
            if let Some(i) = model::room_place(m.rooms, room_id@, 0) {
                if let Ok(moves) = history::read_history(moves_history@) {
                    if let Ok(cells) = history::replayed(moves) {
                        lemma_sound_with_room(
                            m,
                            i,
                            model::RoomModel {
                                cells,
                                moves,
                                initial_history: Some(moves_history@),
                                player_turn: Some(history::turn_after(moves)),
                                game_over: None,
                                started: false,
                                black_time_ms: 0,
                                white_time_ms: 0,
                                turn_started_at: None,
                                turn_start_date: None,
                                ..m.rooms[i]
                            },
                        );
                    }
                }
            }
        },
        ClientCommand::JoinRoom { room_name } => {
            lemma_room_place(m.rooms, room_name@, 0);
            if model::join_answer(m, id, room_name@) is Ok {
                let i = model::room_place(m.rooms, room_name@, 0)->0;
                let c = model::connection_place(m.connections, id, 0)->0;
                let room = m.rooms[i];
                assert(board_matches(room));
                let members = model::with_member(room.members, id, model::joins_as(room, id));
                let middle = model::with_room(m, i, model::RoomModel { members, ..room });
                lemma_sound_with_room(m, i, model::RoomModel { members, ..room });
                let connections = m.connections.update(
                    c,
                    model::ConnectionModel { room_name: Some(room_name@), ..m.connections[c] },
                );
                lemma_sound_with_connections(middle, connections);
            }
        },
        ClientCommand::StartGame { room_name } => {
            lemma_room_place(m.rooms, room_name@, 0);
            if let Some(i) = model::room_place(m.rooms, room_name@, 0) {
                let room = m.rooms[i];
                assert(board_matches(room));
                lemma_sound_with_room(
                    m,
                    i,
                    model::RoomModel {
                        started: true,
                        player_turn: Some(history::turn_after(room.moves)),
                        turn_started_at: Some(now),
                        turn_start_date: Some(date),
                        ..room
                    },
                );
            }
        },
        ClientCommand::LeaveRoom { room_name } => {
            lemma_left_keeps_sound(m, id, room_name@);
        },
        ClientCommand::CloseRoom { room_name } => {
            lemma_room_place(m.rooms, room_name@, 0);
            if let Some(i) = model::room_place(m.rooms, room_name@, 0) {
                let middle = model::HubModel { rooms: m.rooms.remove(i), ..m };
                assert forall|j: int, k: int| 0 <= j < k < middle.rooms.len() implies (
                #[trigger] middle.rooms[j]).name != (#[trigger] middle.rooms[k]).name by {
                    let a = if j < i {
                        j
                    } else {
                        j + 1
                    };
                    let b = if k < i {
                        k
                    } else {
                        k + 1
                    };
                    assert(m.rooms[a].name != m.rooms[b].name);
                }
                assert forall|j: int| 0 <= j < middle.rooms.len() implies board_matches(
                    #[trigger] middle.rooms[j],
                ) by {
                    let a = if j < i {
                        j
                    } else {
                        j + 1
                    };
                    assert(board_matches(m.rooms[a]));
                }
                assert(is_sound(middle));
                lemma_sound_with_connections(middle, model::emptied(m.connections, room_name@));
            }
        },
        ClientCommand::PlayMove { room_name, row, column } => {
            lemma_room_place(m.rooms, room_name@, 0);
            if let Some(i) = model::room_place(m.rooms, room_name@, 0) {
                let p = Position { row, column };
                if model::move_problem(m.rooms[i], id) is None {
                    let kind = m.rooms[i].members[model::member_place(m.rooms[i].members, id, 0)->0].kind;
                    let color = kind->Player_0;
                    let room = model::timed(m.rooms[i], color, now);
                    lemma_timed_keeps(m.rooms[i], color, now);
                    assert(board_matches(m.rooms[i]));
                    assert(board_matches(room));
                    if rules::is_free(room.cells, p) {
                        lemma_move_keeps_sound(m, i, room, room_name@, Move { row, column, color }, now, date);
                    } else {
                        lemma_sound_with_room(
                            m,
                            i,
                            model::RoomModel {
                                started: false,
                                game_over: Some(model::disqualified(color)),
                                ..room
                            },
                        );
                    }
                }
            }
        },
        ClientCommand::SetMoveTime { room_id, seconds } => {
            lemma_room_place(m.rooms, room_id@, 0);
            if let Some(i) = model::room_place(m.rooms, room_id@, 0) {
                assert(board_matches(m.rooms[i]));
                lemma_sound_with_room(
                    m,
                    i,
                    model::RoomModel { move_time_seconds: model::allowed_seconds(seconds), ..m.rooms[i] },
                );
            }
        },
        ClientCommand::ChangeRole { room_id, new_role, preferred_color } => {
            lemma_room_place(m.rooms, room_id@, 0);
            if let Some(i) = model::room_place(m.rooms, room_id@, 0) {
                let room = m.rooms[i];
                assert(board_matches(room));
                if let Some(kind) = model::role_kind(room.members, id, new_role, preferred_color) {
                    let members = match model::member_place(room.members, id, 0) {
                        Some(k) => room.members.update(k, RoomMember { connection_id: id, kind }),
                        None => room.members,
                    };
                    lemma_sound_with_room(m, i, model::RoomModel { members, ..room });
                }
            }
        },
        ClientCommand::Quit => {
            if let Some(c) = model::connection_place(m.connections, id, 0) {
                if let Some(name) = m.connections[c].room_name {
                    lemma_left_keeps_sound(m, id, name);
                }
            }
        },
    }
}

proof fn lemma_left_keeps_sound(m: model::HubModel, id: u64, name: Seq<char>)
    requires
        is_sound(m),
    ensures
        is_sound(model::left(m, id, name).hub),
{
    lemma_room_place(m.rooms, name, 0);
    lemma_connection_place(m.connections, id, 0);
    if let Some(i) = model::room_place(m.rooms, name, 0) {
        assert(board_matches(m.rooms[i]));
        let room = model::RoomModel { members: model::without(m.rooms[i].members, id), ..m.rooms[i] };
        lemma_sound_with_room(m, i, room);
        lemma_sound_with_connections(model::with_room(m, i, room), model::out_of_room(m.connections, id));
    }
}

/// A new connection leaves the hub sound.
pub proof fn law_connecting_keeps_sound(m: model::HubModel, id: u64, username: Seq<char>)
    requires
        is_sound(m),
    ensures
        is_sound(model::connected(m, id, username)),
        model::is_connected(model::connected(m, id, username), id),
{
    lemma_connection_place(m.connections, id, 0);
    let after = model::connected(m, id, username);
    lemma_connection_place(after.connections, id, 0);
    assert forall|j: int, k: int| 0 <= j < k < after.connections.len() implies (#[trigger] after.connections[j]).id != (
    #[trigger] after.connections[k]).id by {
        if k < m.connections.len() {
            assert(m.connections[j].id != m.connections[k].id);
        } else {
            assert(m.connections[j].id != id);
        }
    }
    match model::connection_place(m.connections, id, 0) {
        Some(i) => {
            assert(after.connections[i].id == id);
        },
        None => {
            assert(after.connections[m.connections.len() as int].id == id);
        },
    }
}

proof fn lemma_rooms_left(rooms: Seq<model::RoomModel>, id: u64, n: int)
    requires
        0 <= n <= rooms.len(),
        forall|i: int, j: int| 0 <= i < j < rooms.len() ==> (#[trigger] rooms[i]).name != (#[trigger] rooms[j]).name,
        forall|i: int| 0 <= i < rooms.len() ==> board_matches(#[trigger] rooms[i]),
    ensures
        forall|k: int|
            0 <= k < model::rooms_left(rooms, id, n).len() ==> board_matches(
                #[trigger] model::rooms_left(rooms, id, n)[k],
            ) && exists|j: int| 0 <= j < n && (#[trigger] rooms[j]).name == model::rooms_left(rooms, id, n)[k].name,
        forall|k: int, l: int|
            0 <= k < l < model::rooms_left(rooms, id, n).len() ==> (#[trigger] model::rooms_left(rooms, id, n)[k]).name
                != (#[trigger] model::rooms_left(rooms, id, n)[l]).name,
        forall|k: int|
            0 <= k < model::rooms_left(rooms, id, n).len() ==> model::member_place(
                (#[trigger] model::rooms_left(rooms, id, n)[k]).members,
                id,
                0,
            ) is None,
    decreases n,
{
    if n > 0 {
        lemma_rooms_left(rooms, id, n - 1);
        let before = model::rooms_left(rooms, id, n - 1);
        let after = model::rooms_left(rooms, id, n);
        let room = rooms[n - 1];
        lemma_without(room.members, id);
        assert(board_matches(room));
        assert forall|k: int| 0 <= k < after.len() implies board_matches(#[trigger] after[k]) && exists|j: int|
            0 <= j < n && (#[trigger] rooms[j]).name == after[k].name by {
            if k < before.len() {
                assert(after[k] == before[k]);
                let j = choose|j: int| 0 <= j < n - 1 && (#[trigger] rooms[j]).name == before[k].name;
                assert(rooms[j].name == after[k].name);
            } else {
                assert(rooms[n - 1].name == after[k].name);
            }
        }
        assert forall|k: int, l: int| 0 <= k < l < after.len() implies (#[trigger] after[k]).name != (
        #[trigger] after[l]).name by {
            assert(after[k] == before[k]);
            if l < before.len() {
                assert(after[l] == before[l]);
                assert(before[k].name != before[l].name);
            } else {
                let j = choose|j: int| 0 <= j < n - 1 && (#[trigger] rooms[j]).name == before[k].name;
                assert(rooms[j].name != rooms[n - 1].name);
            }
        }
        assert forall|k: int| 0 <= k < after.len() implies model::member_place(
            (#[trigger] after[k]).members,
            id,
            0,
        ) is None by {
            if k < before.len() {
                assert(after[k] == before[k]);
            }
        }
    }
}

/// Who is taken out of a room is not in it.
proof fn lemma_without(members: Seq<RoomMember>, id: u64)
    ensures
        model::member_place(model::without(members, id), id, 0) is None,
        forall|k: int|
            0 <= k < model::without(members, id).len() ==> (#[trigger] model::without(members, id)[k]).connection_id
                != id,
    decreases members.len(),
{
    let after = model::without(members, id);
    if members.len() > 0 {
        lemma_without(members.drop_last(), id);
        let before = model::without(members.drop_last(), id);
        assert forall|k: int| 0 <= k < after.len() implies (#[trigger] after[k]).connection_id != id by {
            if k < before.len() {
                assert(after[k] == before[k]);
            }
        }
    }
    lemma_member_place(after, id, 0);
}

proof fn lemma_busy_rooms(rooms: Seq<model::RoomModel>, n: int)
    requires
        0 <= n <= rooms.len(),
    ensures
        forall|k: int|
            0 <= k < model::busy_rooms(rooms, n).len() ==> !model::is_idle(#[trigger] model::busy_rooms(rooms, n)[k])
                && exists|j: int| 0 <= j < n && #[trigger] rooms[j] == model::busy_rooms(rooms, n)[k],
        (forall|i: int, j: int|
            0 <= i < j < rooms.len() ==> (#[trigger] rooms[i]).name != (#[trigger] rooms[j]).name) ==> forall|
            k: int,
            l: int,
        |
            0 <= k < l < model::busy_rooms(rooms, n).len() ==> (#[trigger] model::busy_rooms(rooms, n)[k]).name != (
            #[trigger] model::busy_rooms(rooms, n)[l]).name,
    decreases n,
{
    if n > 0 {
        lemma_busy_rooms(rooms, n - 1);
        let before = model::busy_rooms(rooms, n - 1);
        let after = model::busy_rooms(rooms, n);
        assert forall|k: int| 0 <= k < after.len() implies !model::is_idle(#[trigger] after[k]) && exists|j: int|
            0 <= j < n && #[trigger] rooms[j] == after[k] by {
            if k < before.len() {
                assert(after[k] == before[k]);
                let j = choose|j: int| 0 <= j < n - 1 && #[trigger] rooms[j] == before[k];
                assert(rooms[j] == after[k]);
            } else {
                assert(rooms[n - 1] == after[k]);
            }
        }
        if forall|i: int, j: int| 0 <= i < j < rooms.len() ==> (#[trigger] rooms[i]).name != (#[trigger] rooms[j]).name {
            assert forall|k: int, l: int| 0 <= k < l < after.len() implies (#[trigger] after[k]).name != (
            #[trigger] after[l]).name by {
                assert(after[k] == before[k]);
                if l < before.len() {
                    assert(after[l] == before[l]);
                    assert(before[k].name != before[l].name);
                } else {
                    let j = choose|j: int| 0 <= j < n - 1 && #[trigger] rooms[j] == before[k];
                    assert(rooms[j].name != rooms[n - 1].name);
                }
            }
        }
    }
}

/// A lost connection leaves the hub sound: it is in no room any more, and no room is idle.
pub proof fn law_losing_a_connection_keeps_sound(m: model::HubModel, id: u64)
    requires
        is_sound(m),
    ensures
        is_sound(model::lost(m, id).hub),
        !model::is_connected(model::lost(m, id).hub, id),
        forall|k: int|
            0 <= k < model::lost(m, id).hub.rooms.len() ==> model::member_place(
                (#[trigger] model::lost(m, id).hub.rooms[k]).members,
                id,
                0,
            ) is None && !model::is_idle(model::lost(m, id).hub.rooms[k]),
{
    let after = model::lost(m, id).hub;
    let n = m.rooms.len() as int;
    let stay = model::rooms_left(m.rooms, id, n);
    lemma_connection_place(m.connections, id, 0);
    lemma_rooms_left(m.rooms, id, n);
    lemma_busy_rooms(stay, stay.len() as int);
    assert forall|k: int| 0 <= k < after.rooms.len() implies board_matches(#[trigger] after.rooms[k])
        && model::member_place(after.rooms[k].members, id, 0) is None && !model::is_idle(after.rooms[k]) by {
        let j = choose|j: int| 0 <= j < stay.len() && #[trigger] stay[j] == after.rooms[k];
        assert(board_matches(stay[j]));
    }
    if let Some(c) = model::connection_place(m.connections, id, 0) {
        assert forall|j: int, k: int| 0 <= j < k < after.connections.len() implies (
        #[trigger] after.connections[j]).id != (#[trigger] after.connections[k]).id by {
            let a = if j < c {
                j
            } else {
                j + 1
            };
            let b = if k < c {
                k
            } else {
                k + 1
            };
            assert(m.connections[a].id != m.connections[b].id);
        }
        assert forall|j: int| 0 <= j < after.connections.len() implies (#[trigger] after.connections[j]).id != id by {
            if j < c {
                assert(m.connections[j].id != m.connections[c].id);
            } else {
                assert(m.connections[c].id != m.connections[j + 1].id);
            }
        }
    }
    lemma_connection_place(after.connections, id, 0);
}

/// A request that is refused changes nothing.
pub proof fn law_refusal_changes_nothing(
    m: model::HubModel,
    id: u64,
    command: ClientCommand,
    now: u128,
    date: Seq<char>,
)
    requires
        server::outcome_of(m, id, command, now, date).told is Err,
    ensures
        server::outcome_of(m, id, command, now, date).hub == m,
{
}

/// The players take turns: after a move that does not end the game, whoever made it is refused
/// another.
pub proof fn law_players_take_turns(
    m: model::HubModel,
    id: u64,
    name: Seq<char>,
    p: Position,
    now: u128,
    date: Seq<char>,
    q: Position,
    later: u128,
    later_date: Seq<char>,
)
    requires
        model::played(m, id, name, p, now, date).told matches Ok(told) && told.len() == 1,
    ensures
        model::played(model::played(m, id, name, p, now, date).hub, id, name, q, later, later_date).told == Err::<
            Seq<model::DeliveryModel>,
            model::HubFault,
        >(model::fault(HubProblem::NotYourTurn)),
{
    lemma_room_place(m.rooms, name, 0);
    let i = model::room_place(m.rooms, name, 0)->0;
    let after = model::played(m, id, name, p, now, date).hub;
    assert(after.rooms.len() == m.rooms.len());
    assert forall|k: int| 0 <= k < m.rooms.len() implies (#[trigger] after.rooms[k]).name == m.rooms[k].name by {}
    lemma_same_place(m.rooms, after.rooms, name, 0);
    assert(after.rooms[i].members == m.rooms[i].members);
}

proof fn lemma_same_place(a: Seq<model::RoomModel>, b: Seq<model::RoomModel>, name: Seq<char>, i: int)
    requires
        a.len() == b.len(),
        0 <= i,
        forall|k: int| 0 <= k < a.len() ==> (#[trigger] b[k]).name == a[k].name,
    ensures
        model::room_place(a, name, i) == model::room_place(b, name, i),
    decreases a.len() - i,
{
    if i < a.len() {
        assert(b[i].name == a[i].name);
        lemma_same_place(a, b, name, i + 1);
    }
}

/// No move is accepted once the game is over.
pub proof fn law_no_move_after_the_end(m: model::HubModel, id: u64, name: Seq<char>, p: Position, now: u128, date: Seq<char>)
    requires
        model::room_place(m.rooms, name, 0) matches Some(i) && m.rooms[i].game_over is Some,
    ensures
        model::played(m, id, name, p, now, date) == model::refused(m, HubProblem::GameIsOver),
{
}

/// The line that wins a game holds five points or more, all of them stones of the winner, and the
/// last move among them.
pub proof fn law_winning_line_holds_five(before: rules::Cells, p: Position, color: Piece)
    requires
        rules::is_cells(before),
        rules::would_win(before, p, color),
    ensures
        ({
            let s = rules::put(before, p, color);
            let line = server::winning_line(s, p, color, 0);
            &&& line.len() >= 5
            &&& line.contains(p)
            &&& forall|i: int|
                0 <= i < line.len() ==> rules::is_color(
                    s,
                    (#[trigger] line[i]).row as int,
                    line[i].column as int,
                    color,
                )
        }),
{
    let s = rules::put(before, p, color);
    let k = choose|k: int|
        0 <= k < 4 && #[trigger] rules::direction_wins(
            before,
            p.row as int,
            p.column as int,
            rules::direction(k).0,
            rules::direction(k).1,
            color,
        );
    lemma_line_from(before, p, color, 0, k);
}

/// The search for the winning line comes by a direction that wins.
proof fn lemma_line_from(before: rules::Cells, p: Position, color: Piece, j: int, k: int)
    requires
        rules::is_cells(before),
        rules::is_free(before, p),
        0 <= j <= k < 4,
        rules::direction_wins(
            before,
            p.row as int,
            p.column as int,
            rules::direction(k).0,
            rules::direction(k).1,
            color,
        ),
    ensures
        ({
            let s = rules::put(before, p, color);
            let line = server::winning_line(s, p, color, j);
            &&& line.len() >= 5
            &&& line.contains(p)
            &&& forall|i: int|
                0 <= i < line.len() ==> rules::is_color(
                    s,
                    (#[trigger] line[i]).row as int,
                    line[i].column as int,
                    color,
                )
        }),
    decreases k - j,
{
    let s = rules::put(before, p, color);
    let (dr, dc) = rules::direction(j);
    let r = p.row as int;
    let c = p.column as int;
    let ahead = rules::run(s, r + dr, c + dc, dr, dc, color);
    let behind = rules::run(s, r - dr, c - dc, -dr, -dc, color);
    rules::lemma_run(s, r + dr, c + dc, dr, dc, color);
    rules::lemma_run(s, r - dr, c - dc, -dr, -dc, color);
    lemma_run_beside(before, p, color, dr, dc, 1);
    lemma_run_beside(before, p, color, -dr, -dc, 1);
    if behind + 1 + ahead >= 5 {
        let line = server::line_points(p, dr, dc, behind, ahead);
        server::lemma_line_stays(s, p, dr, dc, color, behind, ahead);
        assert(0 * dr == 0 && 0 * dc == 0);
        assert(line[behind] == p);
        assert forall|i: int| 0 <= i < line.len() implies rules::is_color(
            s,
            (#[trigger] line[i]).row as int,
            line[i].column as int,
            color,
        ) by {
            let n = i - behind;
            assert(rules::on_board(r + n * dr, c + n * dc));
            if n != 0 {
                assert(rules::is_color(s, r + n * dr, c + n * dc, color));
            }
        }
    } else {
        lemma_line_from(before, p, color, j + 1, k);
    }
}

/// A stone does not change the rays that leave it: from the `n`th step on they are as before.
proof fn lemma_run_beside(before: rules::Cells, p: Position, color: Piece, dr: int, dc: int, n: int)
    requires
        rules::is_cells(before),
        rules::holds(p),
        -1 <= dr <= 1,
        -1 <= dc <= 1,
        dr != 0 || dc != 0,
        n >= 1,
    ensures
        rules::run(rules::put(before, p, color), p.row + n * dr, p.column + n * dc, dr, dc, color) == rules::run(
            before,
            p.row + n * dr,
            p.column + n * dc,
            dr,
            dc,
            color,
        ),
    decreases rules::steps_left(p.row + n * dr, p.column + n * dc, dr, dc),
{
    let s = rules::put(before, p, color);
    let r = p.row + n * dr;
    let c = p.column + n * dc;
    assert(n * dr != 0 || n * dc != 0) by (nonlinear_arith)
        requires
            n >= 1,
            dr != 0 || dc != 0,
    ;
    assert((n + 1) * dr == n * dr + dr && (n + 1) * dc == n * dc + dc) by (nonlinear_arith);
    assert(1 * dr == dr && 1 * dc == dc);
    assert(rules::is_color(s, r, c, color) == rules::is_color(before, r, c, color));
    if rules::is_color(before, r, c, color) {
        lemma_run_beside(before, p, color, dr, dc, n + 1);
    }
}

} // verus!
