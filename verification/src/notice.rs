//! The news that the hub sends to a bot.
use vstd::prelude::*;

use crate::json;
use crate::protocol;
use crate::protocol::{EventModel, ServerEvent};
use crate::text;

verus! {

/// News from the hub. What is still JSON is to be read as what the name says.
#[derive(Debug, PartialEq, Eq)]
pub enum Notice {
    /// The room has been made, under this name.
    RoomCreated(String),
    /// Someone has joined; the users of the room, in JSON.
    UserJoined(String),
    /// The game has begun; the colour to move, in JSON.
    GameStarted(String),
    /// A move has been made; the move, in JSON.
    MovePlayed(String),
    /// The connection has failed.
    ConnectionError(String),
    /// The game is over; how it ended, in JSON, if the hub told.
    GameOver(Option<String>),
    PlayerDisqualified { username: String, reason: String },
    /// The time of a turn has changed; the seconds, in JSON.
    SettingsChanged(String),
    /// The initial board has changed; its moves, in JSON.
    InitialBoardChanged(String),
    /// The hub tells of an error.
    ServerError(String),
    /// News to be written down only.
    Logged,
    /// News that means nothing to a bot.
    Nothing,
}

/// News from the hub, as plain text.
pub enum NoticeModel {
    RoomCreated(Seq<char>),
    UserJoined(Seq<char>),
    GameStarted(Seq<char>),
    MovePlayed(Seq<char>),
    ConnectionError(Seq<char>),
    GameOver(Option<Seq<char>>),
    PlayerDisqualified { username: Seq<char>, reason: Seq<char> },
    SettingsChanged(Seq<char>),
    InitialBoardChanged(Seq<char>),
    ServerError(Seq<char>),
    Logged,
    Nothing,
}

impl View for Notice {
    type V = NoticeModel;

    open spec fn view(&self) -> NoticeModel {
        match *self {
            Notice::RoomCreated(t) => NoticeModel::RoomCreated(t@),
            Notice::UserJoined(t) => NoticeModel::UserJoined(t@),
            Notice::GameStarted(t) => NoticeModel::GameStarted(t@),
            Notice::MovePlayed(t) => NoticeModel::MovePlayed(t@),
            Notice::ConnectionError(t) => NoticeModel::ConnectionError(t@),
            Notice::GameOver(t) => NoticeModel::GameOver(protocol::text_of(t)),
            Notice::PlayerDisqualified { username, reason } => NoticeModel::PlayerDisqualified {
                username: username@,
                reason: reason@,
            },
            Notice::SettingsChanged(t) => NoticeModel::SettingsChanged(t@),
            Notice::InitialBoardChanged(t) => NoticeModel::InitialBoardChanged(t@),
            Notice::ServerError(t) => NoticeModel::ServerError(t@),
            Notice::Logged => NoticeModel::Logged,
            Notice::Nothing => NoticeModel::Nothing,
        }
    }
}

/// What is missing in news from the hub.
#[derive(Copy, Clone, Debug, PartialEq, Eq, Structural)]
pub enum NoticeProblem {
    Users,
    Turn,
    Move,
    MoveTime,
    History,
}

impl NoticeProblem {
    /// The problem in words.
    pub fn message(self) -> (r: &'static str)
        ensures
            r@ == (match self {
                NoticeProblem::Users => "missing users list in UserJoined"@,
                NoticeProblem::Turn => "missing player turn in GameStarted"@,
                NoticeProblem::Move => "missing move payload"@,
                NoticeProblem::MoveTime => "missing move time in SettingsChanged"@,
                NoticeProblem::History => "missing moves history in InitialBoardChanged"@,
            }),
    {
        match self {
            NoticeProblem::Users => "missing users list in UserJoined",
            NoticeProblem::Turn => "missing player turn in GameStarted",
            NoticeProblem::Move => "missing move payload",
            NoticeProblem::MoveTime => "missing move time in SettingsChanged",
            NoticeProblem::History => "missing moves history in InitialBoardChanged",
        }
    }
}

/// What the first two arguments of news say, if they are strings, and the strings in the first.
#[derive(Debug, PartialEq, Eq)]
pub struct Said {
    pub first: Option<String>,
    pub second: Option<String>,
    pub title: Option<String>,
    pub username: Option<String>,
}

/// The same, as plain text.
pub struct SaidModel {
    pub first: Option<Seq<char>>,
    pub second: Option<Seq<char>>,
    pub title: Option<Seq<char>>,
    pub username: Option<Seq<char>>,
}

impl View for Said {
    type V = SaidModel;

    open spec fn view(&self) -> SaidModel {
        SaidModel {
            first: protocol::text_of(self.first),
            second: protocol::text_of(self.second),
            title: protocol::text_of(self.title),
            username: protocol::text_of(self.username),
        }
    }
}

/// What the first two arguments say.
pub open spec fn said_in(arguments: Seq<Seq<char>>) -> SaidModel {
    SaidModel {
        first: if arguments.len() > 0 {
            json::json_string(arguments[0])
        } else {
            None
        },
        second: if arguments.len() > 1 {
            json::json_string(arguments[1])
        } else {
            None
        },
        title: if arguments.len() > 0 {
            json::json_text(arguments[0], "title"@)
        } else {
            None
        },
        username: if arguments.len() > 0 {
            json::json_text(arguments[0], "username"@)
        } else {
            None
        },
    }
}

/// A text, or another in its place.
pub open spec fn or_else(t: Option<Seq<char>>, other: Seq<char>) -> Seq<char> {
    match t {
        Some(x) => x,
        None => other,
    }
}

fn take_or(t: Option<String>, other: &str) -> (r: String)
    ensures
        r@ == or_else(protocol::text_of(t), other@),
{
    match t {
        Some(x) => x,
        None => other.to_owned(),
    }
}

/// News by its name, its arguments in JSON, and what they say.
pub open spec fn noticed(target: Seq<char>, arguments: Seq<Seq<char>>, said: SaidModel) -> Result<
    NoticeModel,
    NoticeProblem,
> {
    if target == "RoomCreated"@ {
        match said.first {
            Some(name) => Ok(NoticeModel::RoomCreated(name)),
            None => Ok(NoticeModel::Nothing),
        }
    } else if target == "UserJoined"@ {
        if arguments.len() > 1 {
            Ok(NoticeModel::UserJoined(arguments[1]))
        } else {
            Err(NoticeProblem::Users)
        }
    } else if target == "GameStarted"@ {
        if arguments.len() > 0 {
            Ok(NoticeModel::GameStarted(arguments[0]))
        } else {
            Err(NoticeProblem::Turn)
        }
    } else if target == "MovePlayed"@ {
        if arguments.len() > 0 {
            Ok(NoticeModel::MovePlayed(arguments[0]))
        } else {
            Err(NoticeProblem::Move)
        }
    } else if target == "ConnectionError"@ {
        Ok(NoticeModel::ConnectionError(or_else(said.first, "connection error"@)))
    } else if target == "GameOver"@ {
        Ok(
            NoticeModel::GameOver(
                if arguments.len() > 0 {
                    Some(arguments[0])
                } else {
                    None
                },
            ),
        )
    } else if target == "PlayerDisqualified"@ {
        Ok(
            NoticeModel::PlayerDisqualified {
                username: or_else(said.username, "unknown"@),
                reason: or_else(said.second, "unknown"@),
            },
        )
    } else if target == "SettingsChanged"@ {
        if arguments.len() > 0 {
            Ok(NoticeModel::SettingsChanged(arguments[0]))
        } else {
            Err(NoticeProblem::MoveTime)
        }
    } else if target == "InitialBoardChanged"@ {
        if arguments.len() > 0 {
            Ok(NoticeModel::InitialBoardChanged(arguments[0]))
        } else {
            Err(NoticeProblem::History)
        }
    } else if target == "Error"@ {
        Ok(NoticeModel::ServerError(or_else(said.title, "unknown error"@)))
    } else if target == "PlayerLeft"@ || target == "RoleChanged"@ || target == "Timeout"@ || target == "RoomClosed"@ {
        Ok(NoticeModel::Logged)
    } else {
        Ok(NoticeModel::Nothing)
    }
}

/// `r` is `m`.
pub open spec fn is_notice(r: Result<Notice, NoticeProblem>, m: Result<NoticeModel, NoticeProblem>) -> bool {
    match (r, m) {
        (Ok(x), Ok(y)) => x@ == y,
        (Err(x), Err(y)) => x == y,
        _ => false,
    }
}

/// News by its name, its arguments in JSON, and what they say.
pub fn shape_notice(target: &String, arguments: &Vec<String>, said: Said) -> (r: Result<Notice, NoticeProblem>)
    ensures
        is_notice(r, noticed(target@, text::views(arguments@), said@)),
{
    if *target == "RoomCreated".to_owned() {
        match said.first {
            Some(name) => Ok(Notice::RoomCreated(name)),
            None => Ok(Notice::Nothing),
        }
    } else if *target == "UserJoined".to_owned() {
        if arguments.len() > 1 {
            Ok(Notice::UserJoined(arguments[1].clone()))
        } else {
            Err(NoticeProblem::Users)
        }
    } else if *target == "GameStarted".to_owned() {
        if arguments.len() > 0 {
            Ok(Notice::GameStarted(arguments[0].clone()))
        } else {
            Err(NoticeProblem::Turn)
        }
    } else if *target == "MovePlayed".to_owned() {
        if arguments.len() > 0 {
            Ok(Notice::MovePlayed(arguments[0].clone()))
        } else {
            Err(NoticeProblem::Move)
        }
    } else if *target == "ConnectionError".to_owned() {
        Ok(Notice::ConnectionError(take_or(said.first, "connection error")))
    } else if *target == "GameOver".to_owned() {
        if arguments.len() > 0 {
            Ok(Notice::GameOver(Some(arguments[0].clone())))
        } else {
            Ok(Notice::GameOver(None))
        }
    } else if *target == "PlayerDisqualified".to_owned() {
        Ok(
            Notice::PlayerDisqualified {
                username: take_or(said.username, "unknown"),
                reason: take_or(said.second, "unknown"),
            },
        )
    } else if *target == "SettingsChanged".to_owned() {
        if arguments.len() > 0 {
            Ok(Notice::SettingsChanged(arguments[0].clone()))
        } else {
            Err(NoticeProblem::MoveTime)
        }
    } else if *target == "InitialBoardChanged".to_owned() {
        if arguments.len() > 0 {
            Ok(Notice::InitialBoardChanged(arguments[0].clone()))
        } else {
            Err(NoticeProblem::History)
        }
    } else if *target == "Error".to_owned() {
        Ok(Notice::ServerError(take_or(said.title, "unknown error")))
    } else if *target == "PlayerLeft".to_owned() || *target == "RoleChanged".to_owned() || *target
        == "Timeout".to_owned() || *target == "RoomClosed".to_owned() {
        Ok(Notice::Logged)
    } else {
        Ok(Notice::Nothing)
    }
}

/// News by its name and its arguments in JSON.
pub fn read_notice(target: &String, arguments: &Vec<String>) -> (r: Result<Notice, NoticeProblem>)
    ensures
        is_notice(r, noticed(target@, text::views(arguments@), said_in(text::views(arguments@)))),
{
    let mut said = Said { first: None, second: None, title: None, username: None };
    if arguments.len() > 0 {
        let first = arguments[0].as_str();
        said.first = json::string_of(first);
        said.title = json::text_at(first, "title");
        said.username = json::text_at(first, "username");
    }
    if arguments.len() > 1 {
        said.second = json::string_of(arguments[1].as_str());
    }
    assert(said@ == said_in(text::views(arguments@)));
    shape_notice(target, arguments, said)
}

/// The name of an event.
pub open spec fn event_name(event: EventModel) -> Seq<char> {
    match event {
        EventModel::RoomCreated(_) => "RoomCreated"@,
        EventModel::UserJoined(_, _) => "UserJoined"@,
        EventModel::GameStarted(_) => "GameStarted"@,
        EventModel::MovePlayed(_, _, _) => "MovePlayed"@,
        EventModel::GameOver(_, _, _) => "GameOver"@,
        EventModel::Timeout(_, _) => "Timeout"@,
        EventModel::RoomClosed(_) => "RoomClosed"@,
        EventModel::PlayerDisqualified(_, _) => "PlayerDisqualified"@,
        EventModel::Error(_, _) => "Error"@,
        EventModel::RoleChanged(_) => "RoleChanged"@,
        EventModel::SettingsChanged(_) => "SettingsChanged"@,
        EventModel::InitialBoardChanged(_) => "InitialBoardChanged"@,
        EventModel::PlayerLeft(_) => "PlayerLeft"@,
    }
}

/// The name of an event.
pub fn event_target(event: &ServerEvent) -> (r: &'static str)
    ensures
        r@ == event_name(event@),
{
    match event {
        ServerEvent::RoomCreated(_) => "RoomCreated",
        ServerEvent::UserJoined(_, _) => "UserJoined",
        ServerEvent::GameStarted(_) => "GameStarted",
        ServerEvent::MovePlayed(_, _, _) => "MovePlayed",
        ServerEvent::GameOver(_, _, _) => "GameOver",
        ServerEvent::Timeout(_, _) => "Timeout",
        ServerEvent::RoomClosed(_) => "RoomClosed",
        ServerEvent::PlayerDisqualified(_, _) => "PlayerDisqualified",
        ServerEvent::Error(_) => "Error",
        ServerEvent::RoleChanged(_) => "RoleChanged",
        ServerEvent::SettingsChanged(_) => "SettingsChanged",
        ServerEvent::InitialBoardChanged(_) => "InitialBoardChanged",
        ServerEvent::PlayerLeft(_) => "PlayerLeft",
    }
}

/// How many arguments an event has.
pub open spec fn event_arity(event: EventModel) -> nat {
    match event {
        EventModel::RoomCreated(_) => 1,
        EventModel::UserJoined(_, _) => 2,
        EventModel::GameStarted(_) => 1,
        EventModel::MovePlayed(_, _, _) => 3,
        EventModel::GameOver(_, _, _) => 3,
        EventModel::Timeout(_, _) => 2,
        EventModel::RoomClosed(_) => 1,
        EventModel::PlayerDisqualified(_, _) => 2,
        EventModel::Error(_, _) => 1,
        EventModel::RoleChanged(_) => 1,
        EventModel::SettingsChanged(_) => 1,
        EventModel::InitialBoardChanged(_) => 1,
        EventModel::PlayerLeft(_) => 1,
    }
}

/// A bot understands every event of the hub's.
pub proof fn law_bot_knows_every_event(event: EventModel, arguments: Seq<Seq<char>>, said: SaidModel)
    requires
        arguments.len() == event_arity(event),
        event is RoomCreated ==> said.first is Some,
    ensures
        noticed(event_name(event), arguments, said) matches Ok(n) && !(n is Nothing),
{
    reveal_strlit("RoomCreated");
    reveal_strlit("UserJoined");
    reveal_strlit("GameStarted");
    reveal_strlit("MovePlayed");
    reveal_strlit("GameOver");
    reveal_strlit("Timeout");
    reveal_strlit("RoomClosed");
    reveal_strlit("PlayerDisqualified");
    reveal_strlit("Error");
    reveal_strlit("RoleChanged");
    reveal_strlit("SettingsChanged");
    reveal_strlit("InitialBoardChanged");
    reveal_strlit("PlayerLeft");
    assert("RoomCreated"@.len() == 11);
    assert("UserJoined"@.len() == 10);
    assert("GameStarted"@.len() == 11);
    assert("MovePlayed"@.len() == 10);
    assert("GameOver"@.len() == 8);
    assert("Timeout"@.len() == 7);
    assert("RoomClosed"@.len() == 10);
    assert("PlayerDisqualified"@.len() == 18);
    assert("Error"@.len() == 5);
    assert("RoleChanged"@.len() == 11);
    assert("SettingsChanged"@.len() == 15);
    assert("InitialBoardChanged"@.len() == 19);
    assert("PlayerLeft"@.len() == 10);
    // Names of the same length differ in a letter.
    assert("RoomCreated"@[0] == 'R' && "GameStarted"@[0] == 'G' && "RoleChanged"@[0] == 'R');
    assert("RoomCreated"@[1] == 'o' && "RoleChanged"@[2] == 'l' && "RoomCreated"@[2] == 'o');
    assert("UserJoined"@[0] == 'U' && "MovePlayed"@[0] == 'M' && "RoomClosed"@[0] == 'R' && "PlayerLeft"@[0] == 'P');
}

} // verus!
