use gomoku::hub_model::HubProblem;
use gomoku::notice::{event_target, read_notice, shape_notice, Notice, NoticeProblem, Said};
use gomoku::protocol::{ClientCommand, RoomClosedReason, ServerEvent};
use gomoku::signalr::{
    classify_client_frame, closing_message, command_target, connection_error, invocation_strings, read_client_frame,
    read_frame, read_hub_frame, read_request, shape_request, split_frames, text_frame, ClientFrame, Frame,
    FrameProblem, HubFrame, Request, RECORD_SEPARATOR,
};

fn s(text: &str) -> String {
    text.to_string()
}

#[test]
fn frames_end_with_the_separator() {
    let first = text_frame(s("{}"));
    let second = text_frame(s("{\"type\":6}"));
    assert_eq!(first, format!("{{}}{RECORD_SEPARATOR}"));
    assert_eq!(split_frames(&format!("{first}{second}")), vec![s("{}"), s("{\"type\":6}")]);
    assert!(split_frames(&format!(" {RECORD_SEPARATOR}\n{RECORD_SEPARATOR}")).is_empty());
}

#[test]
fn a_frame_is_read_entry_by_entry() {
    let json = r#"{"type":3,"target":"T","invocationId":"9","error":"E","arguments":["a",{"b":1}],"result":[1]}"#;
    let frame = read_frame(json).unwrap();
    assert_eq!(
        frame,
        Frame {
            has_kind: true,
            kind: Some(3),
            protocol: None,
            version: None,
            target: Some(s("T")),
            invocation_id: Some(s("9")),
            error: Some(s("E")),
            arguments: vec![s("\"a\""), s("{\"b\":1}")],
            result: Some(s("[1]")),
        }
    );
    assert!(read_frame("{").is_none());
    assert!(!read_frame("[1]").unwrap().has_kind);
}

#[test]
fn the_hub_takes_handshakes_and_invocations() {
    assert_eq!(read_hub_frame(r#"{"protocol":"json","version":1}"#), Some(Ok(HubFrame::Handshake)));
    assert_eq!(read_hub_frame(r#"{"protocol":"json","version":2}"#), Some(Ok(HubFrame::Ignored)));
    assert_eq!(read_hub_frame(r#"{"type":6}"#), Some(Ok(HubFrame::Ignored)));
    assert_eq!(read_hub_frame("no json"), None);
    assert_eq!(
        read_hub_frame(r#"{"type":1,"target":"Quit","invocationId":"4"}"#),
        Some(Ok(HubFrame::Invocation { target: s("Quit"), invocation_id: Some(s("4")), arguments: vec![] }))
    );
    let error = read_hub_frame(r#"{"type":1,"target":5}"#).unwrap().unwrap_err();
    assert_eq!(error.problem, HubProblem::MissingTarget);
    assert_eq!(error.message(), "missing hub target");
}

#[test]
fn a_player_takes_events_and_completions() {
    assert_eq!(read_client_frame("{}"), Ok(ClientFrame::HandshakeDone));
    assert_eq!(read_client_frame("{ }"), Ok(ClientFrame::Ignored));
    assert_eq!(read_client_frame(r#"{"type":6}"#), Ok(ClientFrame::Ignored));
    assert_eq!(read_client_frame(r#"{"type":7}"#), Ok(ClientFrame::Ignored));
    assert_eq!(
        read_client_frame(r#"{"type":1,"target":"GameStarted","arguments":["Black"]}"#),
        Ok(ClientFrame::Event { target: s("GameStarted"), arguments: vec![s("\"Black\"")] })
    );
    assert_eq!(
        read_client_frame(r#"{"type":3,"invocationId":"0","result":{"a":true}}"#),
        Ok(ClientFrame::Completion { invocation_id: s("0"), outcome: Ok(s("{\"a\":true}")) })
    );
    assert_eq!(
        read_client_frame(r#"{"type":3,"invocationId":"0"}"#),
        Ok(ClientFrame::Completion { invocation_id: s("0"), outcome: Ok(s("null")) })
    );
    assert_eq!(
        read_client_frame(r#"{"type":3,"invocationId":"0","result":1,"error":"room not found"}"#),
        Ok(ClientFrame::Completion { invocation_id: s("0"), outcome: Err(s("room not found")) })
    );
}

#[test]
fn bad_frames_of_the_hub_are_refused() {
    let cases = [
        ("x", FrameProblem::NotJson, "failed to parse signalr frame"),
        (r#"{"type":"1"}"#, FrameProblem::MissingKind, "missing signalr message type"),
        (r#"{"type":1}"#, FrameProblem::MissingTarget, "missing hub target"),
        (r#"{"type":3,"invocationId":3}"#, FrameProblem::MissingInvocationId, "missing invocation id"),
    ];
    for (json, problem, message) in cases {
        assert_eq!(read_client_frame(json), Err(problem));
        assert_eq!(problem.message(), message);
    }
}

#[test]
fn a_frame_can_be_classified_without_json() {
    let frame = Frame {
        has_kind: true,
        kind: Some(1),
        protocol: None,
        version: None,
        target: Some(s("Timeout")),
        invocation_id: None,
        error: None,
        arguments: vec![],
        result: None,
    };
    assert_eq!(
        classify_client_frame(frame),
        Ok(ClientFrame::Event { target: s("Timeout"), arguments: vec![] })
    );
}

#[test]
fn requests_name_their_command() {
    assert_eq!(
        read_request(s("SetInitialBoard"), &vec![s("\"room\""), s("\"0:Black:1:1;!\"")]),
        Ok(Request::SetInitialBoard { room_id: s("room"), moves_history: s("0:Black:1:1;!") })
    );
    assert_eq!(
        read_request(s("JoinRoom"), &vec![s("{\"roomName\":\"r\"}")]),
        Ok(Request::Body { target: s("JoinRoom"), body: s("{\"roomName\":\"r\"}") })
    );
    assert_eq!(read_request(s("Quit"), &vec![]), Ok(Request::Quit));
}

#[test]
fn bad_requests_are_refused() {
    let cases = [
        ("SetInitialBoard", vec![s("1")], "SetInitialBoard: missing room_id argument"),
        ("SetInitialBoard", vec![s("\"room\"")], "SetInitialBoard: missing moves_history argument"),
        ("PlayMove", vec![], "missing invocation argument"),
        ("Dance", vec![s("{}")], "unsupported hub target: Dance"),
    ];
    for (target, arguments, message) in cases {
        assert_eq!(read_request(s(target), &arguments).unwrap_err().message(), message);
    }
    let error = shape_request(s("SetInitialBoard"), &vec![], Some(s("a")), None).unwrap_err();
    assert_eq!(error.problem, HubProblem::MissingMovesHistory);
}

#[test]
fn every_command_is_known_to_the_hub() {
    let room_name = s("r");
    let commands = vec![
        ClientCommand::CreateTwoPlayerRoom { room_name: room_name.clone(), move_time_seconds: 5 },
        ClientCommand::SetInitialBoard { room_id: room_name.clone(), moves_history: s("!") },
        ClientCommand::JoinRoom { room_name: room_name.clone() },
        ClientCommand::StartGame { room_name: room_name.clone() },
        ClientCommand::LeaveRoom { room_name: room_name.clone() },
        ClientCommand::CloseRoom { room_name: room_name.clone() },
        ClientCommand::PlayMove { room_name: room_name.clone(), row: 1, column: 2 },
        ClientCommand::SetMoveTime { room_id: room_name.clone(), seconds: 9 },
        ClientCommand::ChangeRole {
            room_id: room_name.clone(),
            new_role: gomoku::protocol::Role::Observer,
            preferred_color: None,
        },
        ClientCommand::Quit,
    ];
    for command in &commands {
        let target = s(command_target(command));
        let arguments = vec![s("\"r\""), s("\"!\"")];
        assert!(read_request(target, &arguments).is_ok(), "{command:?}");
    }
    assert_eq!(invocation_strings(&commands[1]), Some(vec![s("r"), s("!")]));
    assert_eq!(invocation_strings(&commands[5]), Some(vec![s("r")]));
    assert_eq!(invocation_strings(&commands[2]), None);
}

#[test]
fn open_requests_are_told_the_last_error() {
    assert_eq!(closing_message(&None), "server closed the connection");
    assert_eq!(closing_message(&Some(s("bad token"))), "bad token");
    assert_eq!(connection_error(&s("ConnectionError"), &vec![s("\"bad token\"")]), Some(s("bad token")));
    assert_eq!(connection_error(&s("ConnectionError"), &vec![s("3")]), None);
    assert_eq!(connection_error(&s("Error"), &vec![s("\"x\"")]), None);
}

#[test]
fn news_is_read_by_its_name() {
    let read = |target: &str, arguments: &[&str]| {
        let arguments: Vec<String> = arguments.iter().map(|a| s(a)).collect();
        read_notice(&s(target), &arguments)
    };
    assert_eq!(read("RoomCreated", &["\"r\""]), Ok(Notice::RoomCreated(s("r"))));
    assert_eq!(read("RoomCreated", &["1"]), Ok(Notice::Nothing));
    assert_eq!(read("UserJoined", &["{}", "[]"]), Ok(Notice::UserJoined(s("[]"))));
    assert_eq!(read("GameStarted", &["\"White\""]), Ok(Notice::GameStarted(s("\"White\""))));
    assert_eq!(read("MovePlayed", &["{}"]), Ok(Notice::MovePlayed(s("{}"))));
    assert_eq!(read("ConnectionError", &["\"no\""]), Ok(Notice::ConnectionError(s("no"))));
    assert_eq!(read("ConnectionError", &[]), Ok(Notice::ConnectionError(s("connection error"))));
    assert_eq!(read("GameOver", &["\"Draw\""]), Ok(Notice::GameOver(Some(s("\"Draw\"")))));
    assert_eq!(read("GameOver", &[]), Ok(Notice::GameOver(None)));
    assert_eq!(
        read("PlayerDisqualified", &["{\"username\":\"bob\"}", "\"IllegalMove\""]),
        Ok(Notice::PlayerDisqualified { username: s("bob"), reason: s("IllegalMove") })
    );
    assert_eq!(
        read("PlayerDisqualified", &[]),
        Ok(Notice::PlayerDisqualified { username: s("unknown"), reason: s("unknown") })
    );
    assert_eq!(read("SettingsChanged", &["7"]), Ok(Notice::SettingsChanged(s("7"))));
    assert_eq!(read("InitialBoardChanged", &["\"!\""]), Ok(Notice::InitialBoardChanged(s("\"!\""))));
    assert_eq!(read("Error", &["{\"title\":\"oops\"}"]), Ok(Notice::ServerError(s("oops"))));
    assert_eq!(read("Error", &["[]"]), Ok(Notice::ServerError(s("unknown error"))));
    for target in ["PlayerLeft", "RoleChanged", "Timeout", "RoomClosed"] {
        assert_eq!(read(target, &[]), Ok(Notice::Logged));
    }
    assert_eq!(read("Weather", &["1"]), Ok(Notice::Nothing));
}

#[test]
fn news_without_its_arguments_is_refused() {
    let cases = [
        ("UserJoined", NoticeProblem::Users, "missing users list in UserJoined"),
        ("GameStarted", NoticeProblem::Turn, "missing player turn in GameStarted"),
        ("MovePlayed", NoticeProblem::Move, "missing move payload"),
        ("SettingsChanged", NoticeProblem::MoveTime, "missing move time in SettingsChanged"),
        ("InitialBoardChanged", NoticeProblem::History, "missing moves history in InitialBoardChanged"),
    ];
    for (target, problem, message) in cases {
        assert_eq!(read_notice(&s(target), &vec![]), Err(problem));
        assert_eq!(problem.message(), message);
    }
    let said = Said { first: Some(s("r")), second: None, title: None, username: None };
    assert_eq!(shape_notice(&s("RoomCreated"), &vec![], said), Ok(Notice::RoomCreated(s("r"))));
}

#[test]
fn events_have_the_names_that_bots_know() {
    let event = ServerEvent::RoomClosed(RoomClosedReason::ClosedByOwner);
    assert_eq!(event_target(&event), "RoomClosed");
    assert_eq!(event_target(&ServerEvent::SettingsChanged(3)), "SettingsChanged");
    assert_eq!(read_notice(&s(event_target(&event)), &vec![s("\"ClosedByOwner\"")]), Ok(Notice::Logged));
}
