//! A game as one of its players sees it.
use vstd::prelude::*;

use crate::board::{Board, BoardError, Move, Piece, Position};
use crate::rules;

verus! {

/// The board, whose turn it is, and which colour is ours.
#[derive(Debug, PartialEq, Eq)]
pub struct GameSnapshot {
    pub board: Board,
    pub player_turn: Piece,
    pub my_color: Piece,
}

impl Clone for GameSnapshot {
    fn clone(&self) -> (r: Self)
        ensures
            r.board@ == self.board@,
            r.board.hash == self.board.hash,
            r.player_turn == self.player_turn,
            r.my_color == self.my_color,
    {
        GameSnapshot { board: self.board.clone(), player_turn: self.player_turn, my_color: self.my_color }
    }
}

/// What a player knows of the session around a game.
#[derive(Debug, PartialEq, Eq)]
pub struct SessionContext {
    pub room_name: Option<String>,
    pub is_room_owner: bool,
    pub move_time_seconds: Option<u32>,
}

impl Clone for SessionContext {
    fn clone(&self) -> (r: Self)
        ensures
            r == *self,
    {
        let room_name = match &self.room_name {
            Some(name) => Some(name.clone()),
            None => None,
        };
        SessionContext { room_name, is_room_owner: self.is_room_owner, move_time_seconds: self.move_time_seconds }
    }
}

impl SessionContext {
    /// A session outside any room.
    pub fn new(is_room_owner: bool) -> (r: Self)
        ensures
            r == (SessionContext { room_name: None, is_room_owner, move_time_seconds: None }),
    {
        Self { room_name: None, is_room_owner, move_time_seconds: None }
    }
}

impl GameSnapshot {
    pub fn new(board: Board, player_turn: Piece, my_color: Piece) -> (r: Self)
        ensures
            r == (GameSnapshot { board, player_turn, my_color }),
    {
        Self { board, player_turn, my_color }
    }

    /// A game that has not begun.
    pub fn with_default_board(player_turn: Piece, my_color: Piece) -> (r: Self)
        ensures
            r.board@ == rules::empty_cells(),
            r.board.hash == 0,
            r.player_turn == player_turn,
            r.my_color == my_color,
    {
        Self::new(Board::new(), player_turn, my_color)
    }

    /// A game to show the engine on: a black and a white stone beside each other near the middle,
    /// Black to move and ours.
    pub fn demo() -> (r: Self)
        ensures
            r.board@ == rules::put(
                rules::put(rules::empty_cells(), Position { row: 9, column: 9 }, Piece::Black),
                Position { row: 9, column: 10 },
                Piece::White,
            ),
            r.board.hash_matches(),
            r.player_turn == Piece::Black,
            r.my_color == Piece::Black,
    {
        let mut board = Board::new();
        let _ = board.place(Position::new(9, 9), Piece::Black);
        let _ = board.place(Position::new(9, 10), Piece::White);
        Self::new(board, Piece::Black, Piece::Black)
    }

    /// Puts the stone of `mv` on the board. The turn stays as it is.
    pub fn apply_move(&mut self, mv: Move) -> (r: Result<(), BoardError>)
        ensures
            r == (if !rules::on_board(mv.row as int, mv.column as int) {
                Err(BoardError::OutOfBounds(Position { row: mv.row, column: mv.column }))
            } else if rules::at(old(self).board@, mv.row as int, mv.column as int) is Some {
                Err(BoardError::Occupied(Position { row: mv.row, column: mv.column }))
            } else {
                Ok(())
            }),
            r is Err ==> *final(self) == *old(self),
            r is Ok ==> final(self).board@ == rules::put(
                old(self).board@,
                Position { row: mv.row, column: mv.column },
                mv.color,
            ),
            old(self).board.hash_matches() ==> final(self).board.hash_matches(),
            final(self).player_turn == old(self).player_turn,
            final(self).my_color == old(self).my_color,
    {
        self.board.apply_move(mv)
    }

    /// It is our turn.
    pub fn is_my_turn(&self) -> (r: bool)
        ensures
            r == (self.player_turn == self.my_color),
    {
        self.player_turn == self.my_color
    }
}

} // verus!
