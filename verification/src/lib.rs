//! Gomoku: five stones in a row on a board of 18 by 18 cells.
//!
//! - `board`, `rules`, `laws`, `score_laws`, `zobrist`: the board, what it is in mathematics, and what
//!   holds of it.
//! - `strategy`, `transposition_table`, `ranking`, `engine`: how a move is chosen.
//! - `selection`, `clock`: how a move is chosen in time.
//! - `protocol`, `signalr`, `json`, `notice`, `history`, `text`: what is said between a player and a hub.
//! - `server`, `hub_model`, `hub_laws`, `hub_play_laws`: the hub.
//! - `runtime`, `bot_laws`, `ui`, `config`, `address`: a player that connects to a hub.

pub mod address;
pub mod board;
pub mod bot_laws;
pub mod clock;
pub mod config;
pub mod engine;
pub mod game;
pub mod history;
pub mod hub_laws;
pub mod hub_model;
pub mod hub_play_laws;
pub mod json;
pub mod laws;
pub mod notice;
pub mod protocol;
pub mod ranking;
pub mod rules;
pub mod runtime;
pub mod score_laws;
pub mod selection;
pub mod server;
pub mod signalr;
pub mod strategy;
pub mod text;
pub mod transposition_table;
pub mod ui;
pub mod zobrist;

pub use board::{Board, BoardError, Move, Piece, Position, BOARD_SIZE};
pub use engine::{DecisionEngine, DecisionPlan};
pub use game::{GameSnapshot, SessionContext};
pub use strategy::{Strategy, StrategyKind, StrategyRouter};
