//! What a run is configured with, and what follows from it.
use vstd::prelude::*;

use crate::board::Piece;
use crate::json;
use crate::protocol;
use crate::protocol::{JoinRoomError, JoinRoomResponse};

verus! {

/// How a player says who they are.
#[derive(Copy, Clone, Debug, PartialEq, Eq, Structural)]
pub enum AuthMode {
    Guest,
    Registered,
}

/// The strategy that a player is told to use.
#[derive(Copy, Clone, Debug, PartialEq, Eq, Structural)]
pub enum StrategyChoice {
    /// Immediate win or block only: fast, but without lookahead.
    Tactical,
    /// The greedy positional heuristic: good for early moves.
    Pattern,
    /// Fast threat checks, then the deep search: the recommended default.
    Adaptive,
    /// Consecutive fours, else the greedy heuristic.
    Vcf,
    /// Consecutive threats, else the greedy heuristic.
    Vct,
    /// The deep search alone.
    Search,
}

impl StrategyChoice {
    pub open spec fn name_spec(self) -> Seq<char> {
        match self {
            StrategyChoice::Tactical => "Tactical"@,
            StrategyChoice::Pattern => "Pattern"@,
            StrategyChoice::Adaptive => "Adaptive"@,
            StrategyChoice::Vcf => "Vcf"@,
            StrategyChoice::Vct => "Vct"@,
            StrategyChoice::Search => "Search"@,
        }
    }

    /// The name under which wins are counted.
    pub fn name(self) -> (r: &'static str)
        ensures
            r@ == self.name_spec(),
    {
        match self {
            StrategyChoice::Tactical => "Tactical",
            StrategyChoice::Pattern => "Pattern",
            StrategyChoice::Adaptive => "Adaptive",
            StrategyChoice::Vcf => "Vcf",
            StrategyChoice::Vct => "Vct",
            StrategyChoice::Search => "Search",
        }
    }
}

/// The command line.
#[derive(Debug, PartialEq, Eq)]
pub struct Cli {
    pub mode: AuthMode,
    pub bot_name: String,
    pub room_name: String,
    pub create_room: bool,
    pub initial_board_moves_history: Option<String>,
    pub username: Option<String>,
    pub password: Option<String>,
    pub strategy: StrategyChoice,
    pub base_url: String,
    pub demo: bool,
    pub ui: bool,
    pub debug_websocket: bool,
    pub local_server: bool,
    pub local_server_port: u16,
    pub ui_port: u16,
    pub move_time_seconds: u32,
}

/// What a run does.
#[derive(Copy, Clone, Debug, PartialEq, Eq, Structural)]
pub enum RunMode {
    LocalServer,
    Demo,
    Ui,
    Bot,
}

/// One of the two bots that the browser starts.
#[derive(Debug, PartialEq, Eq)]
pub struct BotFormSpec {
    pub name: Option<String>,
    pub auth: AuthMode,
    pub username: Option<String>,
    pub password: Option<String>,
    pub strategy: StrategyChoice,
}

/// A game that the browser starts.
#[derive(Debug, PartialEq, Eq)]
pub struct StartRequest {
    pub room_name: String,
    pub move_time_seconds: u32,
    pub base_url: String,
    pub initial_board_moves_history: Option<String>,
    pub bot1: BotFormSpec,
    pub bot2: BotFormSpec,
}

/// What the browser's form is filled with.
#[derive(Debug, PartialEq, Eq)]
pub struct BotDefaults {
    pub room_name: String,
    pub move_time_seconds: u32,
    pub base_url: String,
    pub bot_name: String,
    pub strategy: StrategyChoice,
}

impl Cli {
    /// What the run does: the hub before the demo, the demo before the browser, else one bot.
    pub fn run_mode(&self) -> (r: RunMode)
        ensures
            r == (if self.local_server {
                RunMode::LocalServer
            } else if self.demo {
                RunMode::Demo
            } else if self.ui {
                RunMode::Ui
            } else {
                RunMode::Bot
            }),
    {
        if self.local_server {
            RunMode::LocalServer
        } else if self.demo {
            RunMode::Demo
        } else if self.ui {
            RunMode::Ui
        } else {
            RunMode::Bot
        }
    }

    /// What the browser's form is filled with.
    pub fn defaults(&self) -> (r: BotDefaults)
        ensures
            r.room_name@ == self.room_name@,
            r.move_time_seconds == self.move_time_seconds,
            r.base_url@ == self.base_url@,
            r.bot_name@ == self.bot_name@,
            r.strategy == self.strategy,
    {
        BotDefaults {
            room_name: self.room_name.clone(),
            move_time_seconds: self.move_time_seconds,
            base_url: self.base_url.clone(),
            bot_name: self.bot_name.clone(),
            strategy: self.strategy,
        }
    }

    /// How the bot of the command line says who it is.
    pub fn sign_in(&self) -> (r: Result<SignIn, SignInProblem>)
        ensures
            is_sign_in(
                self.mode,
                Some(self.bot_name@),
                protocol::text_of(self.username),
                protocol::text_of(self.password),
                r,
            ),
    {
        sign_in(self.mode, Some(self.bot_name.clone()), &self.username, &self.password)
    }
}

/// How a player is to say who they are: by name, or with a token to be had for a name and a password.
#[derive(Debug, PartialEq, Eq)]
pub enum SignIn {
    Guest(String),
    LogIn { username: String, password: String },
}

/// What is missing for a registered player.
#[derive(Copy, Clone, Debug, PartialEq, Eq, Structural)]
pub enum SignInProblem {
    Username,
    Password,
}

impl SignInProblem {
    /// The error in words, for the command line.
    pub fn cli_message(self) -> (r: &'static str)
        ensures
            r@ == (match self {
                SignInProblem::Username => "--username is required in registered mode"@,
                SignInProblem::Password => "--password is required in registered mode"@,
            }),
    {
        match self {
            SignInProblem::Username => "--username is required in registered mode",
            SignInProblem::Password => "--password is required in registered mode",
        }
    }

    /// The error in words, for the browser.
    pub fn form_message(self) -> (r: &'static str)
        ensures
            r@ == (match self {
                SignInProblem::Username => "username required for registered auth"@,
                SignInProblem::Password => "password required for registered auth"@,
            }),
    {
        match self {
            SignInProblem::Username => "username required for registered auth",
            SignInProblem::Password => "password required for registered auth",
        }
    }
}

/// `r` is how a player says who they are: a guest by name, "bot" where there is none; a registered
/// player by name and password, both of which there must be.
pub open spec fn is_sign_in(
    mode: AuthMode,
    name: Option<Seq<char>>,
    username: Option<Seq<char>>,
    password: Option<Seq<char>>,
    r: Result<SignIn, SignInProblem>,
) -> bool {
    match mode {
        AuthMode::Guest => r matches Ok(SignIn::Guest(n)) && n@ == (match name {
            Some(x) => x,
            None => "bot"@,
        }),
        AuthMode::Registered => match (username, password) {
            (None, _) => r matches Err(SignInProblem::Username),
            (Some(_), None) => r matches Err(SignInProblem::Password),
            (Some(u), Some(p)) => r matches Ok(SignIn::LogIn { username: un, password: pw }) && un@ == u && pw@ == p,
        },
    }
}

fn sign_in(mode: AuthMode, name: Option<String>, username: &Option<String>, password: &Option<String>) -> (r: Result<
    SignIn,
    SignInProblem,
>)
    ensures
        is_sign_in(
            mode,
            protocol::text_of(name),
            protocol::text_of(*username),
            protocol::text_of(*password),
            r,
        ),
{
    match mode {
        AuthMode::Guest => match name {
            Some(n) => Ok(SignIn::Guest(n)),
            None => Ok(SignIn::Guest("bot".to_owned())),
        },
        AuthMode::Registered => match username {
            None => Err(SignInProblem::Username),
            Some(u) => match password {
                None => Err(SignInProblem::Password),
                Some(p) => Ok(SignIn::LogIn { username: u.clone(), password: p.clone() }),
            },
        },
    }
}

impl BotFormSpec {
    /// How the bot says who it is.
    pub fn sign_in(&self) -> (r: Result<SignIn, SignInProblem>)
        ensures
            is_sign_in(
                self.auth,
                protocol::text_of(self.name),
                protocol::text_of(self.username),
                protocol::text_of(self.password),
                r,
            ),
    {
        sign_in(self.auth, protocol::clone_text(&self.name), &self.username, &self.password)
    }
}

impl StartRequest {
    /// The strategy of the bot that plays `color`: the first bot plays Black.
    pub fn strategy_of(&self, color: Piece) -> (r: StrategyChoice)
        ensures
            r == (match color {
                Piece::Black => self.bot1.strategy,
                Piece::White => self.bot2.strategy,
            }),
    {
        match color {
            Piece::Black => self.bot1.strategy,
            Piece::White => self.bot2.strategy,
        }
    }
}

/// What a connection says of who connects: a pair in the query of its address.
#[derive(Debug, PartialEq, Eq)]
pub struct Auth {
    pub query: Option<(String, String)>,
}

impl Auth {
    /// A guest says their name.
    pub fn guest(bot_name: String) -> (r: Self)
        ensures
            r.query matches Some(q) && q.0@ == "guestUsername"@ && q.1 == bot_name,
    {
        Self { query: Some(("guestUsername".to_owned(), bot_name)) }
    }

    /// A registered player shows their token.
    pub fn registered(token: String) -> (r: Self)
        ensures
            r.query matches Some(q) && q.0@ == "access_token"@ && q.1 == token,
    {
        Self { query: Some(("access_token".to_owned(), token)) }
    }

    pub fn query_value(self) -> (r: Option<(String, String)>)
        ensures
            r == self.query,
    {
        self.query
    }
}

/// What to do after an attempt to join a room.
#[derive(Copy, Clone, Debug, PartialEq, Eq, Structural)]
pub enum JoinStep {
    Joined,
    /// Wait, and try again.
    Retry,
    /// It was the last attempt.
    GiveUp,
    /// The room refuses for good.
    Refused,
}

/// How often a room that does not exist yet is tried.
pub const ROOM_ATTEMPTS: u32 = 20;

/// How often a room that is not preloaded yet is tried.
pub const PRELOAD_ATTEMPTS: u32 = 10;

/// What to do after an attempt to join a room that someone else makes: try again, 20 times in all,
/// while it does not exist.
pub fn join_until_exists(attempt: u32, response: &JoinRoomResponse) -> (r: JoinStep)
    ensures
        r == (if response.success {
            JoinStep::Joined
        } else if response.error != Some(JoinRoomError::RoomDoesNotExist) {
            JoinStep::Refused
        } else if attempt < 20 {
            JoinStep::Retry
        } else {
            JoinStep::GiveUp
        }),
{
    if response.success {
        return JoinStep::Joined;
    }
    let missing = match response.error {
        Some(e) => e == JoinRoomError::RoomDoesNotExist,
        None => false,
    };
    if !missing {
        JoinStep::Refused
    } else if attempt < ROOM_ATTEMPTS {
        JoinStep::Retry
    } else {
        JoinStep::GiveUp
    }
}

/// The room that was joined tells of an initial board.
pub open spec fn tells_initial_board(response: JoinRoomResponse) -> bool {
    response.data matches Some(data) && data.lobby_data.initial_board_moves_history is Some
}

/// What to do after an attempt to join a room that is to be preloaded, if `expected`: try again, 10
/// times in all, while it is not.
pub fn join_until_preload(attempt: u32, expected: bool, response: &JoinRoomResponse) -> (r: JoinStep)
    ensures
        r == (if !response.success {
            JoinStep::Refused
        } else if !expected || tells_initial_board(*response) {
            JoinStep::Joined
        } else if attempt < 10 {
            JoinStep::Retry
        } else {
            JoinStep::GiveUp
        }),
{
    if !response.success {
        return JoinStep::Refused;
    }
    let preloaded = match &response.data {
        Some(data) => data.lobby_data.initial_board_moves_history.is_some(),
        None => false,
    };
    if !expected || preloaded {
        JoinStep::Joined
    } else if attempt < PRELOAD_ATTEMPTS {
        JoinStep::Retry
    } else {
        JoinStep::GiveUp
    }
}

/// What the answer to the making of a room, a JSON text, says went wrong: its entry `error`, where
/// that is a string and not empty.
pub fn creation_error(answer: &str) -> (r: Option<String>)
    ensures
        protocol::text_of(r) == failure_said(json::json_text(answer@, "error"@)),
{
    said_failure(json::text_at(answer, "error"))
}

/// An empty error is none.
pub open spec fn failure_said(error: Option<Seq<char>>) -> Option<Seq<char>> {
    match error {
        Some(e) => if e.len() == 0 {
            None
        } else {
            Some(e)
        },
        None => None,
    }
}

/// An empty error is none.
pub fn said_failure(error: Option<String>) -> (r: Option<String>)
    ensures
        protocol::text_of(r) == failure_said(protocol::text_of(error)),
{
    match error {
        Some(e) => if e.as_str().is_empty() {
            None
        } else {
            Some(e)
        },
        None => None,
    }
}

/// The token in the answer to a login, a JSON text: its entry `accessToken`, where that is a string.
pub fn access_token(answer: &str) -> (r: Option<String>)
    ensures
        protocol::text_of(r) == json::json_text(answer@, "accessToken"@),
{
    json::text_at(answer, "accessToken")
}

} // verus!
