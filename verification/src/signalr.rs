//! The SignalR framing between players and the hub.
use vstd::prelude::*;

use crate::hub_model::HubProblem;
use crate::json;
use crate::protocol;
use crate::protocol::ClientCommand;
use crate::rules;
use crate::server::HubError;
use crate::text;

verus! {

/// What ends a frame.
pub const RECORD_SEPARATOR: char = '\u{1e}';

/// A frame counts unless it is blank.
pub open spec fn is_filled() -> spec_fn(Seq<char>) -> bool {
    |frame: Seq<char>| !text::is_blank(frame)
}

/// The frames of a message.
pub open spec fn frames_of(message: Seq<char>) -> Seq<Seq<char>> {
    text::split(message, RECORD_SEPARATOR).filter(is_filled())
}

/// Splits a message into its frames; blank ones are left out.
pub fn split_frames(message: &str) -> (r: Vec<String>)
    ensures
        text::views(r@) == frames_of(message@),
{
    let pieces = text::split_text(message, RECORD_SEPARATOR);
    let ghost all = text::views(pieces@);
    let ghost pred = is_filled();
    let mut r: Vec<String> = Vec::new();
    let mut i: usize = 0;
    proof {
        reveal(Seq::filter);
        assert(all.take(0).filter(pred) =~= Seq::<Seq<char>>::empty());
        assert(text::views(r@) =~= Seq::<Seq<char>>::empty());
    }
    while i < pieces.len()
        invariant
            i <= pieces@.len(),
            all == text::views(pieces@),
            pred == is_filled(),
            text::views(r@) == all.take(i as int).filter(pred),
        decreases pieces@.len() - i,
    {
        proof {
            rules::lemma_filter_step(all, pred, i as int);
            assert(all[i as int] == pieces@[i as int]@);
        }
        let ghost before = r@;
        if !text::trim_text(pieces[i].as_str()).as_str().is_empty() {
            r.push(pieces[i].clone());
            assert(text::views(r@) =~= text::views(before).push(pieces@[i as int]@));
        }
        i = i + 1;
    }
    assert(all.take(i as int) =~= all);
    r
}

/// A frame: the payload, ended by the separator.
pub fn text_frame(payload: String) -> (r: String)
    ensures
        r@ == payload@.push(RECORD_SEPARATOR),
{
    let mut r = payload;
    r.push(RECORD_SEPARATOR);
    r
}

/// Splitting a message gives back the payloads that it was framed from, one after the other.
pub proof fn law_frames_round_trip(payload: Seq<char>, rest: Seq<char>)
    requires
        !payload.contains(RECORD_SEPARATOR),
        !text::is_blank(payload),
    ensures
        frames_of(payload.push(RECORD_SEPARATOR) + rest) == seq![payload] + frames_of(rest),
        frames_of(Seq::empty()) == Seq::<Seq<char>>::empty(),
{
    let pred = is_filled();
    text::lemma_split_join(payload, rest, RECORD_SEPARATOR);
    text::lemma_split_none(payload, RECORD_SEPARATOR);
    lemma_filter_front(payload, text::split(rest, RECORD_SEPARATOR), pred);
    assert(frames_of(Seq::empty()) =~= Seq::<Seq<char>>::empty()) by {
        reveal(Seq::filter);
        let only = seq![Seq::<char>::empty()];
        assert(text::split(Seq::empty(), RECORD_SEPARATOR) =~= only);
        assert(only.drop_last() =~= Seq::<Seq<char>>::empty());
        assert(only.drop_last().filter(pred) =~= Seq::<Seq<char>>::empty());
        assert(only.last() =~= Seq::<char>::empty());
        assert(!pred(only.last()));
    }
}

proof fn lemma_filter_front(x: Seq<char>, rest: Seq<Seq<char>>, pred: spec_fn(Seq<char>) -> bool)
    requires
        pred(x),
    ensures
        (seq![x] + rest).filter(pred) == seq![x] + rest.filter(pred),
    decreases rest.len(),
{
    reveal(Seq::filter);
    let whole = seq![x] + rest;
    if rest.len() == 0 {
        assert(whole.drop_last() =~= Seq::<Seq<char>>::empty());
        assert(whole.filter(pred) =~= seq![x] + rest.filter(pred));
    } else {
        assert(whole.drop_last() =~= seq![x] + rest.drop_last());
        lemma_filter_front(x, rest.drop_last(), pred);
        assert(whole.filter(pred) =~= seq![x] + rest.filter(pred));
    }
}

/// What a frame holds, entry by entry.
#[derive(Debug, PartialEq, Eq)]
pub struct Frame {
    /// There is an entry `type`.
    pub has_kind: bool,
    pub kind: Option<u64>,
    pub protocol: Option<String>,
    pub version: Option<u64>,
    pub target: Option<String>,
    pub invocation_id: Option<String>,
    pub error: Option<String>,
    /// Each a JSON text.
    pub arguments: Vec<String>,
    /// A JSON text.
    pub result: Option<String>,
}

/// What a frame holds, as plain text and values.
#[verifier::ext_equal]
pub struct FrameModel {
    pub has_kind: bool,
    pub kind: Option<u64>,
    pub protocol: Option<Seq<char>>,
    pub version: Option<u64>,
    pub target: Option<Seq<char>>,
    pub invocation_id: Option<Seq<char>>,
    pub error: Option<Seq<char>>,
    pub arguments: Seq<Seq<char>>,
    pub result: Option<Seq<char>>,
}

impl View for Frame {
    type V = FrameModel;

    open spec fn view(&self) -> FrameModel {
        FrameModel {
            has_kind: self.has_kind,
            kind: self.kind,
            protocol: protocol::text_of(self.protocol),
            version: self.version,
            target: protocol::text_of(self.target),
            invocation_id: protocol::text_of(self.invocation_id),
            error: protocol::text_of(self.error),
            arguments: text::views(self.arguments@),
            result: protocol::text_of(self.result),
        }
    }
}

/// What the frame `json` holds.
pub open spec fn frame_of(json: Seq<char>) -> FrameModel {
    FrameModel {
        has_kind: json::json_has(json, "type"@),
        kind: json::json_number(json, "type"@),
        protocol: json::json_text(json, "protocol"@),
        version: json::json_number(json, "version"@),
        target: json::json_text(json, "target"@),
        invocation_id: json::json_text(json, "invocationId"@),
        error: json::json_text(json, "error"@),
        arguments: match json::json_items(json, "arguments"@) {
            Some(items) => items,
            None => Seq::empty(),
        },
        result: json::json_entry(json, "result"@),
    }
}

/// Reads a frame; none where it is no JSON.
pub fn read_frame(json: &str) -> (r: Option<Frame>)
    ensures
        match r {
            Some(frame) => json::json_valid(json@) && frame@ == frame_of(json@),
            None => !json::json_valid(json@),
        },
{
    if !json::is_valid(json) {
        return None;
    }
    let arguments = match json::items_at(json, "arguments") {
        Some(items) => items,
        None => {
            let none: Vec<String> = Vec::new();
            assert(text::views(none@) =~= Seq::<Seq<char>>::empty());
            none
        },
    };
    let frame = Frame {
        has_kind: json::has(json, "type"),
        kind: json::number_at(json, "type"),
        protocol: json::text_at(json, "protocol"),
        version: json::number_at(json, "version"),
        target: json::text_at(json, "target"),
        invocation_id: json::text_at(json, "invocationId"),
        error: json::text_at(json, "error"),
        arguments,
        result: json::entry_at(json, "result"),
    };
    Some(frame)
}

/// What the hub makes of a frame.
#[derive(Debug, PartialEq, Eq)]
pub enum HubFrame {
    Handshake,
    Ignored,
    Invocation { target: String, invocation_id: Option<String>, arguments: Vec<String> },
}

/// The frame asks for the JSON protocol in its first version.
pub open spec fn is_handshake(f: FrameModel) -> bool {
    f.protocol == Some("json"@) && f.version == Some(1u64)
}

/// `s` holds the text `t`.
fn is_text(s: &Option<String>, t: &str) -> (r: bool)
    ensures
        r == (protocol::text_of(*s) == Some(t@)),
{
    match s {
        Some(x) => *x == t.to_owned(),
        None => false,
    }
}

/// `r` is what the hub makes of a frame that holds `f`: a handshake, a request, or nothing. A
/// request has to say what for.
pub open spec fn is_hub_frame(f: FrameModel, r: Result<HubFrame, HubError>) -> bool {
    if is_handshake(f) {
        r matches Ok(HubFrame::Handshake)
    } else if f.kind != Some(1u64) {
        r matches Ok(HubFrame::Ignored)
    } else {
        match f.target {
            None => r matches Err(e) && e.fault() == crate::hub_model::fault(HubProblem::MissingTarget),
            Some(t) => r matches Ok(HubFrame::Invocation { target, invocation_id, arguments }) && target@ == t
                && protocol::text_of(invocation_id) == f.invocation_id && text::views(arguments@)
                == f.arguments,
        }
    }
}

/// What the hub makes of a frame.
pub fn classify_hub_frame(frame: Frame) -> (r: Result<HubFrame, HubError>)
    ensures
        is_hub_frame(frame@, r),
{
    let version = match frame.version {
        Some(n) => n == 1,
        None => false,
    };
    if is_text(&frame.protocol, "json") && version {
        return Ok(HubFrame::Handshake);
    }
    let invocation = match frame.kind {
        Some(n) => n == 1,
        None => false,
    };
    if !invocation {
        return Ok(HubFrame::Ignored);
    }
    match frame.target {
        Some(target) => Ok(
            HubFrame::Invocation { target, invocation_id: frame.invocation_id, arguments: frame.arguments },
        ),
        None => Err(HubError::of(HubProblem::MissingTarget)),
    }
}

/// Reads a frame that a player sent; none where it is no JSON.
pub fn read_hub_frame(json: &str) -> (r: Option<Result<HubFrame, HubError>>)
    ensures
        match r {
            Some(x) => json::json_valid(json@) && is_hub_frame(frame_of(json@), x),
            None => !json::json_valid(json@),
        },
{
    match read_frame(json) {
        Some(frame) => Some(classify_hub_frame(frame)),
        None => None,
    }
}

/// What is wrong with a frame of the hub's.
#[derive(Copy, Clone, Debug, PartialEq, Eq, Structural)]
pub enum FrameProblem {
    NotJson,
    MissingKind,
    MissingTarget,
    MissingInvocationId,
}

impl FrameProblem {
    /// What the error says.
    pub open spec fn message_spec(self) -> Seq<char> {
        match self {
            FrameProblem::NotJson => "failed to parse signalr frame"@,
            FrameProblem::MissingKind => "missing signalr message type"@,
            FrameProblem::MissingTarget => "missing hub target"@,
            FrameProblem::MissingInvocationId => "missing invocation id"@,
        }
    }

    /// The error in words.
    pub fn message(self) -> (r: &'static str)
        ensures
            r@ == self.message_spec(),
    {
        match self {
            FrameProblem::NotJson => "failed to parse signalr frame",
            FrameProblem::MissingKind => "missing signalr message type",
            FrameProblem::MissingTarget => "missing hub target",
            FrameProblem::MissingInvocationId => "missing invocation id",
        }
    }
}

/// What a player makes of a frame.
#[derive(Debug, PartialEq, Eq)]
pub enum ClientFrame {
    /// The hub agrees to the protocol.
    HandshakeDone,
    Ignored,
    /// Something has happened. The arguments are JSON texts.
    Event { target: String, arguments: Vec<String> },
    /// A request is answered, by a JSON text or an error.
    Completion { invocation_id: String, outcome: Result<String, String> },
}

/// `r` is what a player makes of a frame that holds `f`: an event, the answer to a request, or
/// nothing.
pub open spec fn is_client_frame(f: FrameModel, r: Result<ClientFrame, FrameProblem>) -> bool {
    if !f.has_kind {
        r matches Ok(ClientFrame::Ignored)
    } else {
        match f.kind {
            None => r matches Err(FrameProblem::MissingKind),
            Some(kind) => if kind == 1 {
                match f.target {
                    None => r matches Err(FrameProblem::MissingTarget),
                    Some(t) => r matches Ok(ClientFrame::Event { target, arguments }) && target@ == t
                        && text::views(arguments@) == f.arguments,
                }
            } else if kind == 3 {
                match f.invocation_id {
                    None => r matches Err(FrameProblem::MissingInvocationId),
                    Some(id) => r matches Ok(ClientFrame::Completion { invocation_id, outcome }) && invocation_id@
                        == id && match f.error {
                        Some(e) => outcome matches Err(x) && x@ == e,
                        None => outcome matches Ok(x) && x@ == (match f.result {
                            Some(v) => v,
                            None => "null"@,
                        }),
                    },
                }
            } else {
                r matches Ok(ClientFrame::Ignored)
            },
        }
    }
}

/// What a player makes of a frame.
pub fn classify_client_frame(frame: Frame) -> (r: Result<ClientFrame, FrameProblem>)
    ensures
        is_client_frame(frame@, r),
{
    if !frame.has_kind {
        return Ok(ClientFrame::Ignored);
    }
    let kind = match frame.kind {
        Some(kind) => kind,
        None => {
            return Err(FrameProblem::MissingKind);
        },
    };
    if kind == 1 {
        match frame.target {
            Some(target) => Ok(ClientFrame::Event { target, arguments: frame.arguments }),
            None => Err(FrameProblem::MissingTarget),
        }
    } else if kind == 3 {
        match frame.invocation_id {
            Some(invocation_id) => {
                let outcome = match frame.error {
                    Some(error) => Err(error),
                    None => match frame.result {
                        Some(result) => Ok(result),
                        None => Ok("null".to_owned()),
                    },
                };
                Ok(ClientFrame::Completion { invocation_id, outcome })
            },
            None => Err(FrameProblem::MissingInvocationId),
        }
    } else {
        Ok(ClientFrame::Ignored)
    }
}

/// Reads a frame that the hub sent: an empty object ends the handshake.
pub fn read_client_frame(json: &str) -> (r: Result<ClientFrame, FrameProblem>)
    ensures
        if json@ == "{}"@ {
            r matches Ok(ClientFrame::HandshakeDone)
        } else if !json::json_valid(json@) {
            r matches Err(FrameProblem::NotJson)
        } else {
            is_client_frame(frame_of(json@), r)
        },
{
    if json.to_owned() == "{}".to_owned() {
        return Ok(ClientFrame::HandshakeDone);
    }
    match read_frame(json) {
        Some(frame) => classify_client_frame(frame),
        None => Err(FrameProblem::NotJson),
    }
}

/// What the hub finds in a request: the command that it names, with its arguments still to be read.
#[derive(Debug, PartialEq, Eq)]
pub enum Request {
    /// The body of the command named, a JSON text.
    Body { target: String, body: String },
    SetInitialBoard { room_id: String, moves_history: String },
    Quit,
}

/// The requests that hand over one body.
pub open spec fn takes_body(target: Seq<char>) -> bool {
    ||| target == "CreateTwoPlayerRoom"@
    ||| target == "JoinRoom"@
    ||| target == "StartGame"@
    ||| target == "PlayMove"@
    ||| target == "LeaveRoom"@
    ||| target == "CloseRoom"@
    ||| target == "SetMoveTime"@
    ||| target == "ChangeRole"@
}

fn is_body_target(target: &String) -> (r: bool)
    ensures
        r == takes_body(target@),
{
    *target == "CreateTwoPlayerRoom".to_owned() || *target == "JoinRoom".to_owned() || *target
        == "StartGame".to_owned() || *target == "PlayMove".to_owned() || *target == "LeaveRoom".to_owned() || *target
        == "CloseRoom".to_owned() || *target == "SetMoveTime".to_owned() || *target == "ChangeRole".to_owned()
}

/// The string that the argument at place `i` is.
pub open spec fn string_argument(arguments: Seq<Seq<char>>, i: int) -> Option<Seq<char>> {
    if i < arguments.len() {
        json::json_string(arguments[i])
    } else {
        None
    }
}

/// `r` is what the hub finds in a request for `target`, given the strings that its first two
/// arguments are: a board is preloaded with two strings, other commands take one body, quitting
/// takes nothing.
pub open spec fn is_request(
    target: Seq<char>,
    arguments: Seq<Seq<char>>,
    first: Option<Seq<char>>,
    second: Option<Seq<char>>,
    r: Result<Request, HubError>,
) -> bool {
    if target == "SetInitialBoard"@ {
        match (first, second) {
            (None, _) => r matches Err(e) && e.fault() == crate::hub_model::fault(HubProblem::MissingRoomId),
            (Some(_), None) => r matches Err(e) && e.fault() == crate::hub_model::fault(
                HubProblem::MissingMovesHistory,
            ),
            (Some(a), Some(b)) => r matches Ok(Request::SetInitialBoard { room_id, moves_history }) && room_id@ == a
                && moves_history@ == b,
        }
    } else if target == "Quit"@ {
        r matches Ok(Request::Quit)
    } else if takes_body(target) {
        if arguments.len() == 0 {
            r matches Err(e) && e.fault() == crate::hub_model::fault(HubProblem::MissingArgument)
        } else {
            r matches Ok(Request::Body { target: t, body }) && t@ == target && body@ == arguments[0]
        }
    } else {
        r matches Err(e) && e.fault() == (HubProblem::UnsupportedTarget, target)
    }
}

/// What the hub finds in a request, given the strings that its first two arguments are.
pub fn shape_request(
    target: String,
    arguments: &Vec<String>,
    first: Option<String>,
    second: Option<String>,
) -> (r: Result<Request, HubError>)
    ensures
        is_request(
            target@,
            text::views(arguments@),
            protocol::text_of(first),
            protocol::text_of(second),
            r,
        ),
{
    if target == "SetInitialBoard".to_owned() {
        let room_id = match first {
            Some(room_id) => room_id,
            None => {
                return Err(HubError::of(HubProblem::MissingRoomId));
            },
        };
        return match second {
            Some(moves_history) => Ok(Request::SetInitialBoard { room_id, moves_history }),
            None => Err(HubError::of(HubProblem::MissingMovesHistory)),
        };
    }
    if target == "Quit".to_owned() {
        return Ok(Request::Quit);
    }
    if is_body_target(&target) {
        if arguments.len() == 0 {
            return Err(HubError::of(HubProblem::MissingArgument));
        }
        assert(text::views(arguments@)[0] == arguments@[0]@);
        return Ok(Request::Body { target, body: arguments[0].clone() });
    }
    Err(HubError { problem: HubProblem::UnsupportedTarget, text: target })
}

/// What the hub finds in a request for `target` with `arguments`, each a JSON text.
pub fn read_request(target: String, arguments: &Vec<String>) -> (r: Result<Request, HubError>)
    ensures
        is_request(
            target@,
            text::views(arguments@),
            string_argument(text::views(arguments@), 0),
            string_argument(text::views(arguments@), 1),
            r,
        ),
{
    let first = if arguments.len() > 0 {
        assert(text::views(arguments@)[0] == arguments@[0]@);
        json::string_of(arguments[0].as_str())
    } else {
        None
    };
    let second = if arguments.len() > 1 {
        assert(text::views(arguments@)[1] == arguments@[1]@);
        json::string_of(arguments[1].as_str())
    } else {
        None
    };
    shape_request(target, arguments, first, second)
}

/// The name of a command.
pub open spec fn target_of(command: ClientCommand) -> Seq<char> {
    match command {
        ClientCommand::CreateTwoPlayerRoom { .. } => "CreateTwoPlayerRoom"@,
        ClientCommand::SetInitialBoard { .. } => "SetInitialBoard"@,
        ClientCommand::JoinRoom { .. } => "JoinRoom"@,
        ClientCommand::StartGame { .. } => "StartGame"@,
        ClientCommand::LeaveRoom { .. } => "LeaveRoom"@,
        ClientCommand::CloseRoom { .. } => "CloseRoom"@,
        ClientCommand::PlayMove { .. } => "PlayMove"@,
        ClientCommand::SetMoveTime { .. } => "SetMoveTime"@,
        ClientCommand::ChangeRole { .. } => "ChangeRole"@,
        ClientCommand::Quit => "Quit"@,
    }
}

/// The name of a command.
pub fn command_target(command: &ClientCommand) -> (r: &'static str)
    ensures
        r@ == target_of(*command),
{
    match command {
        ClientCommand::CreateTwoPlayerRoom { .. } => "CreateTwoPlayerRoom",
        ClientCommand::SetInitialBoard { .. } => "SetInitialBoard",
        ClientCommand::JoinRoom { .. } => "JoinRoom",
        ClientCommand::StartGame { .. } => "StartGame",
        ClientCommand::LeaveRoom { .. } => "LeaveRoom",
        ClientCommand::CloseRoom { .. } => "CloseRoom",
        ClientCommand::PlayMove { .. } => "PlayMove",
        ClientCommand::SetMoveTime { .. } => "SetMoveTime",
        ClientCommand::ChangeRole { .. } => "ChangeRole",
        ClientCommand::Quit => "Quit",
    }
}

/// The strings that a command hands over when it waits for an answer; none where it hands over its
/// body.
pub open spec fn strings_of(command: ClientCommand) -> Option<Seq<Seq<char>>> {
    match command {
        ClientCommand::SetInitialBoard { room_id, moves_history } => Some(seq![room_id@, moves_history@]),
        ClientCommand::CloseRoom { room_name } => Some(seq![room_name@]),
        _ => None,
    }
}

/// The strings that a command hands over when it waits for an answer; none where it hands over its
/// body.
pub fn invocation_strings(command: &ClientCommand) -> (r: Option<Vec<String>>)
    ensures
        match r {
            Some(v) => strings_of(*command) == Some(text::views(v@)),
            None => strings_of(*command) is None,
        },
{
    match command {
        ClientCommand::SetInitialBoard { room_id, moves_history } => {
            let mut v: Vec<String> = Vec::new();
            v.push(room_id.clone());
            v.push(moves_history.clone());
            assert(text::views(v@) =~= seq![room_id@, moves_history@]);
            Some(v)
        },
        ClientCommand::CloseRoom { room_name } => {
            let mut v: Vec<String> = Vec::new();
            v.push(room_name.clone());
            assert(text::views(v@) =~= seq![room_name@]);
            Some(v)
        },
        _ => None,
    }
}

/// Every command that is sent under its name with its strings, or with a body, is one that the hub
/// knows.
pub proof fn law_hub_knows_every_command(
    command: ClientCommand,
    arguments: Seq<Seq<char>>,
    first: Option<Seq<char>>,
    second: Option<Seq<char>>,
    r: Result<Request, HubError>,
)
    requires
        is_request(target_of(command), arguments, first, second, r),
        arguments.len() > 0,
        command is SetInitialBoard ==> first is Some && second is Some,
    ensures
        r is Ok,
{
    reveal_strlit("CreateTwoPlayerRoom");
    reveal_strlit("SetInitialBoard");
    reveal_strlit("JoinRoom");
    reveal_strlit("StartGame");
    reveal_strlit("LeaveRoom");
    reveal_strlit("CloseRoom");
    reveal_strlit("PlayMove");
    reveal_strlit("SetMoveTime");
    reveal_strlit("ChangeRole");
    reveal_strlit("Quit");
    assert("CreateTwoPlayerRoom"@.len() == 19);
    assert("SetInitialBoard"@.len() == 15);
    assert("JoinRoom"@.len() == 8);
    assert("StartGame"@.len() == 9);
    assert("LeaveRoom"@.len() == 9);
    assert("CloseRoom"@.len() == 9);
    assert("PlayMove"@.len() == 8);
    assert("SetMoveTime"@.len() == 11);
    assert("ChangeRole"@.len() == 10);
    assert("Quit"@.len() == 4);
}

/// What requests that are still open are told when the connection ends: the last error of the
/// hub's, if there was one.
pub fn closing_message(last_error: &Option<String>) -> (r: String)
    ensures
        r@ == (match protocol::text_of(*last_error) {
            Some(t) => t,
            None => "server closed the connection"@,
        }),
{
    match last_error {
        Some(t) => t.clone(),
        None => "server closed the connection".to_owned(),
    }
}

/// The error that an event tells of, if it tells of one: the first argument of a connection error,
/// where it is a string.
pub fn connection_error(target: &String, arguments: &Vec<String>) -> (r: Option<String>)
    ensures
        protocol::text_of(r) == (if target@ == "ConnectionError"@ {
            string_argument(text::views(arguments@), 0)
        } else {
            None
        }),
{
    if *target != "ConnectionError".to_owned() || arguments.len() == 0 {
        return None;
    }
    assert(text::views(arguments@)[0] == arguments@[0]@);
    json::string_of(arguments[0].as_str())
}

} // verus!
