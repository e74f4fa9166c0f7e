use gomoku::address::{build_ws_url, login_url, ws_scheme, AddressError};
use gomoku::board::Piece;
use gomoku::config::{
    access_token, creation_error, join_until_exists, join_until_preload, said_failure, Auth, AuthMode, BotFormSpec, Cli,
    JoinStep, RunMode, SignIn, SignInProblem, StartRequest, StrategyChoice,
};
use gomoku::protocol::{JoinRoomError, JoinRoomResponse, JoinRoomResponseData, LobbyData, Role, User, UserType};

fn s(text: &str) -> String {
    text.to_string()
}

fn cli() -> Cli {
    Cli {
        mode: AuthMode::Guest,
        bot_name: s("gomoku-bot"),
        room_name: s("arkleme-room"),
        create_room: false,
        initial_board_moves_history: None,
        username: None,
        password: None,
        strategy: StrategyChoice::Adaptive,
        base_url: s("http://localhost:8081"),
        demo: false,
        ui: false,
        debug_websocket: false,
        local_server: false,
        local_server_port: 8081,
        ui_port: 8080,
        move_time_seconds: 5,
    }
}

#[test]
fn modes_come_in_order() {
    let mut c = cli();
    assert_eq!(c.run_mode(), RunMode::Bot);
    c.ui = true;
    assert_eq!(c.run_mode(), RunMode::Ui);
    c.demo = true;
    assert_eq!(c.run_mode(), RunMode::Demo);
    c.local_server = true;
    assert_eq!(c.run_mode(), RunMode::LocalServer);
}

#[test]
fn the_form_is_filled_from_the_command_line() {
    let d = cli().defaults();
    assert_eq!((d.room_name, d.bot_name, d.base_url), (s("arkleme-room"), s("gomoku-bot"), s("http://localhost:8081")));
    assert_eq!((d.move_time_seconds, d.strategy), (5, StrategyChoice::Adaptive));
}

#[test]
fn registered_players_need_a_name_and_a_password() {
    let mut c = cli();
    assert_eq!(c.sign_in(), Ok(SignIn::Guest(s("gomoku-bot"))));
    c.mode = AuthMode::Registered;
    assert_eq!(c.sign_in(), Err(SignInProblem::Username));
    c.username = Some(s("ann"));
    assert_eq!(c.sign_in(), Err(SignInProblem::Password));
    c.password = Some(s("pw"));
    assert_eq!(c.sign_in(), Ok(SignIn::LogIn { username: s("ann"), password: s("pw") }));
    assert_eq!(SignInProblem::Username.cli_message(), "--username is required in registered mode");
    assert_eq!(SignInProblem::Password.cli_message(), "--password is required in registered mode");
    assert_eq!(SignInProblem::Username.form_message(), "username required for registered auth");
    assert_eq!(SignInProblem::Password.form_message(), "password required for registered auth");
}

fn bot(strategy: StrategyChoice) -> BotFormSpec {
    BotFormSpec { name: None, auth: AuthMode::Guest, username: None, password: None, strategy }
}

#[test]
fn a_bot_of_the_form_may_go_without_a_name() {
    let mut b = bot(StrategyChoice::Vcf);
    assert_eq!(b.sign_in(), Ok(SignIn::Guest(s("bot"))));
    b.name = Some(s("zed"));
    assert_eq!(b.sign_in(), Ok(SignIn::Guest(s("zed"))));
    b.auth = AuthMode::Registered;
    assert_eq!(b.sign_in(), Err(SignInProblem::Username));
}

#[test]
fn the_first_bot_plays_black() {
    let request = StartRequest {
        room_name: s("r"),
        move_time_seconds: 1,
        base_url: s("http://x"),
        initial_board_moves_history: None,
        bot1: bot(StrategyChoice::Vct),
        bot2: bot(StrategyChoice::Search),
    };
    assert_eq!(request.strategy_of(Piece::Black).name(), "Vct");
    assert_eq!(request.strategy_of(Piece::White).name(), "Search");
}

#[test]
fn strategies_are_counted_under_their_names() {
    let all = [
        StrategyChoice::Tactical,
        StrategyChoice::Pattern,
        StrategyChoice::Adaptive,
        StrategyChoice::Vcf,
        StrategyChoice::Vct,
        StrategyChoice::Search,
    ];
    for choice in all {
        assert_eq!(choice.name(), format!("{choice:?}"));
    }
}

#[test]
fn connections_say_who_they_are() {
    assert_eq!(Auth::guest(s("zed")).query_value(), Some((s("guestUsername"), s("zed"))));
    assert_eq!(Auth::registered(s("T")).query_value(), Some((s("access_token"), s("T"))));
}

fn response(success: bool, error: Option<JoinRoomError>, history: Option<&str>) -> JoinRoomResponse {
    let data = JoinRoomResponseData {
        user: User { id: s("1"), username: s("a"), role: Role::Player, game_info: None, user_type: UserType::Bot },
        lobby_data: LobbyData {
            users: vec![],
            is_room_owner: true,
            move_time_seconds: 5,
            initial_board_moves_history: history.map(s),
        },
        game_data: None,
        game_over_data: None,
    };
    JoinRoomResponse { success, data: if success { Some(data) } else { None }, error }
}

#[test]
fn a_room_is_tried_twenty_times() {
    let missing = response(false, Some(JoinRoomError::RoomDoesNotExist), None);
    assert_eq!(join_until_exists(1, &missing), JoinStep::Retry);
    assert_eq!(join_until_exists(19, &missing), JoinStep::Retry);
    assert_eq!(join_until_exists(20, &missing), JoinStep::GiveUp);
    assert_eq!(join_until_exists(1, &response(false, Some(JoinRoomError::InvalidRequest), None)), JoinStep::Refused);
    assert_eq!(join_until_exists(1, &response(false, None, None)), JoinStep::Refused);
    assert_eq!(join_until_exists(20, &response(true, None, None)), JoinStep::Joined);
}

#[test]
fn a_preload_is_awaited_ten_times() {
    let bare = response(true, None, None);
    let loaded = response(true, None, Some("0:Black:0:0;!"));
    assert_eq!(join_until_preload(1, false, &bare), JoinStep::Joined);
    assert_eq!(join_until_preload(9, true, &bare), JoinStep::Retry);
    assert_eq!(join_until_preload(10, true, &bare), JoinStep::GiveUp);
    assert_eq!(join_until_preload(10, true, &loaded), JoinStep::Joined);
    let missing = response(false, Some(JoinRoomError::RoomDoesNotExist), None);
    assert_eq!(join_until_preload(1, true, &missing), JoinStep::Refused);
}

#[test]
fn a_room_that_was_not_made_says_why() {
    assert_eq!(creation_error(r#"{"success":false,"error":"taken"}"#), Some(s("taken")));
    assert_eq!(creation_error(r#"{"error":""}"#), None);
    assert_eq!(creation_error(r#"{"error":null}"#), None);
    assert_eq!(creation_error("null"), None);
    assert_eq!(said_failure(Some(s("x"))), Some(s("x")));
}

#[test]
fn a_login_gives_a_token() {
    assert_eq!(access_token(r#"{"accessToken":"T"}"#), Some(s("T")));
    assert_eq!(access_token(r#"{"token":"T"}"#), None);
}

#[test]
fn addresses_are_for_websockets() {
    let pair = |v: &str| Some((s("guestUsername"), s(v)));
    assert_eq!(build_ws_url("http://localhost:8081//", None), Ok(s("ws://localhost:8081/gameHub")));
    assert_eq!(
        build_ws_url("https://api.example.org", pair("a b&c")),
        Ok(s("wss://api.example.org/gameHub?guestUsername=a+b%26c"))
    );
    assert_eq!(build_ws_url("ws://h", pair("x")), Ok(s("ws://h/gameHub?guestUsername=x")));
    assert_eq!(ws_scheme(s("ftp")), "ftp");
    assert_eq!(ws_scheme(s("https")), "wss");
    assert_eq!(build_ws_url("http://h/", None), build_ws_url("http://h", None));
}

#[test]
fn a_base_address_has_to_be_a_url() {
    let error = build_ws_url("nowhere", None).unwrap_err();
    assert_eq!(error, AddressError::NotAUrl(s("relative URL without a base")));
    assert_eq!(error.message(), "relative URL without a base");
    // A file has no host, so its scheme cannot be changed, not even to itself.
    assert_eq!(build_ws_url("file:///x", None), Err(AddressError::NoWebSocket));
    assert_eq!(build_ws_url("file:///x", Some((s("k"), s("v")))), Err(AddressError::NoWebSocket));
    assert_eq!(AddressError::NoWebSocket.message(), "failed to convert API URL to websocket URL");
}

#[test]
fn players_log_in_below_the_base_address() {
    assert_eq!(login_url("https://h/"), "https://h/api/auth/login");
}
