//! Moves histories: the text form of a game.
//!
//! A history is a list of entries `index:colour:row:column`, each followed by a semicolon, with an
//! exclamation mark at the end.
use vstd::prelude::*;

use crate::board::{Board, BoardError, Move, Piece, Position};
use crate::ranking;
use crate::rules;
use crate::text;

verus! {

broadcast use crate::board::board_has_every_cell;

/// What is wrong with a history.
#[derive(Copy, Clone, Debug, PartialEq, Eq, Structural)]
pub enum HistoryProblem {
    /// An entry does not have four parts.
    Entry,
    /// The index is no number.
    Index,
    /// The colour is neither Black nor White.
    Color,
    /// The row is no number.
    Row,
    /// The column is no number.
    Column,
    /// A stone cannot be put where a move says.
    Move(BoardError),
}

/// What is wrong with a history, and the entry, or the colour, that is at fault; empty where a
/// move is.
#[derive(Debug, PartialEq, Eq)]
pub struct HistoryError {
    pub problem: HistoryProblem,
    pub text: String,
}

/// A problem and the text at fault.
pub type Fault = (HistoryProblem, Seq<char>);

impl HistoryError {
    pub open spec fn fault(self) -> Fault {
        (self.problem, self.text@)
    }

    /// What the error says of the board that a room is preloaded with.
    pub open spec fn preload_message_spec(self) -> Seq<char> {
        match self.problem {
            HistoryProblem::Entry => "invalid moves history entry: "@ + self.text@,
            HistoryProblem::Index => "invalid moves history entry: "@ + self.text@,
            HistoryProblem::Color => "invalid piece color: "@ + self.text@,
            HistoryProblem::Row => "invalid row in moves history"@,
            HistoryProblem::Column => "invalid column in moves history"@,
            HistoryProblem::Move(_) => "failed to apply initial move"@,
        }
    }

    /// The error in words, for a room that is preloaded.
    pub fn preload_message(&self) -> (s: String)
        ensures
            s@ == self.preload_message_spec(),
    {
        match self.problem {
            HistoryProblem::Entry => "invalid moves history entry: ".to_owned().concat(self.text.as_str()),
            HistoryProblem::Index => "invalid moves history entry: ".to_owned().concat(self.text.as_str()),
            HistoryProblem::Color => "invalid piece color: ".to_owned().concat(self.text.as_str()),
            HistoryProblem::Row => "invalid row in moves history".to_owned(),
            HistoryProblem::Column => "invalid column in moves history".to_owned(),
            HistoryProblem::Move(_) => "failed to apply initial move".to_owned(),
        }
    }

    /// What the error says of the board that a player is told to begin with.
    pub open spec fn message_spec(self) -> Seq<char> {
        match self.problem {
            HistoryProblem::Entry => "invalid initial board entry: "@ + self.text@,
            HistoryProblem::Index => "invalid move index in initial board entry: "@ + self.text@,
            HistoryProblem::Color => "invalid piece in initial board entry: "@ + self.text@,
            HistoryProblem::Row => "invalid row in initial board entry: "@ + self.text@,
            HistoryProblem::Column => "invalid column in initial board entry: "@ + self.text@,
            HistoryProblem::Move(_) => "failed to apply initial board move"@,
        }
    }

    /// The error in words.
    pub fn message(&self) -> (s: String)
        ensures
            s@ == self.message_spec(),
    {
        match self.problem {
            HistoryProblem::Entry => "invalid initial board entry: ".to_owned().concat(self.text.as_str()),
            HistoryProblem::Index => "invalid move index in initial board entry: ".to_owned().concat(
                self.text.as_str(),
            ),
            HistoryProblem::Color => "invalid piece in initial board entry: ".to_owned().concat(self.text.as_str()),
            HistoryProblem::Row => "invalid row in initial board entry: ".to_owned().concat(self.text.as_str()),
            HistoryProblem::Column => "invalid column in initial board entry: ".to_owned().concat(
                self.text.as_str(),
            ),
            HistoryProblem::Move(_) => "failed to apply initial board move".to_owned(),
        }
    }
}

/// The name of a colour.
pub open spec fn color_text(color: Piece) -> Seq<char> {
    match color {
        Piece::Black => "Black"@,
        Piece::White => "White"@,
    }
}

/// The name of a colour.
pub fn piece_name(piece: Piece) -> (r: String)
    ensures
        r@ == color_text(piece),
{
    match piece {
        Piece::Black => "Black".to_owned(),
        Piece::White => "White".to_owned(),
    }
}

/// The colour with a name.
pub open spec fn color_named(name: Seq<char>) -> Option<Piece> {
    if name == "Black"@ {
        Some(Piece::Black)
    } else if name == "White"@ {
        Some(Piece::White)
    } else {
        None
    }
}

/// The colour with a name.
pub fn parse_piece(name: &String) -> (r: Option<Piece>)
    ensures
        r == color_named(name@),
{
    if *name == "Black".to_owned() {
        Some(Piece::Black)
    } else if *name == "White".to_owned() {
        Some(Piece::White)
    } else {
        None
    }
}

/// One entry.
pub open spec fn entry_text(index: int, mv: Move) -> Seq<char> {
    text::decimal(index as nat).push(':') + color_text(mv.color).push(':') + text::decimal(mv.row as nat).push(':')
        + text::decimal(mv.column as nat)
}

/// The entries of the first `n` moves.
pub open spec fn entries_text(moves: Seq<Move>, n: int) -> Seq<char>
    decreases n,
{
    if n <= 0 {
        Seq::empty()
    } else {
        entries_text(moves, n - 1) + entry_text(n - 1, moves[n - 1]).push(';')
    }
}

/// The history of `moves`.
pub open spec fn history_text(moves: Seq<Move>) -> Seq<char> {
    entries_text(moves, moves.len() as int).push('!')
}

/// The history of `moves`.
pub fn moves_history_string(moves: &Vec<Move>) -> (r: String)
    ensures
        r@ == history_text(moves@),
{
    let mut r = String::new();
    let mut i: usize = 0;
    assert(r@ =~= Seq::<char>::empty());
    while i < moves.len()
        invariant
            i <= moves@.len(),
            r@ == entries_text(moves@, i as int),
        decreases moves@.len() - i,
    {
        let mv = moves[i];
        let ghost before = r@;
        text::push_decimal(&mut r, i as u64);
        r.push(':');
        r.append(piece_name(mv.color).as_str());
        r.push(':');
        text::push_decimal(&mut r, mv.row as u64);
        r.push(':');
        text::push_decimal(&mut r, mv.column as u64);
        r.push(';');
        assert(r@ =~= before + entry_text(i as int, mv).push(';'));
        i = i + 1;
    }
    r.push('!');
    r
}

/// The parts of an entry from the colour on: colour, row and column.
pub open spec fn read_move(entry: Seq<char>, parts: Seq<Seq<char>>) -> Result<Move, Fault> {
    match color_named(parts[1]) {
        None => Err((HistoryProblem::Color, parts[1])),
        Some(color) => match text::number(parts[2]) {
            None => Err((HistoryProblem::Row, entry)),
            Some(row) => match text::number(parts[3]) {
                None => Err((HistoryProblem::Column, entry)),
                Some(column) => Ok(Move { row, column, color }),
            },
        },
    }
}

fn parse_move(entry: &String, parts: &Vec<String>) -> (r: Result<Move, HistoryError>)
    requires
        parts@.len() == 4,
    ensures
        match r {
            Ok(mv) => read_move(entry@, text::views(parts@)) == Ok::<Move, Fault>(mv),
            Err(e) => read_move(entry@, text::views(parts@)) == Err::<Move, Fault>(e.fault()),
        },
{
    assert(text::views(parts@)[1] == parts@[1]@ && text::views(parts@)[2] == parts@[2]@ && text::views(parts@)[3]
        == parts@[3]@);
    let color = match parse_piece(&parts[1]) {
        Some(color) => color,
        None => {
            return Err(HistoryError { problem: HistoryProblem::Color, text: parts[1].clone() });
        },
    };
    let row = match text::parse_number(parts[2].as_str()) {
        Some(row) => row,
        None => {
            return Err(HistoryError { problem: HistoryProblem::Row, text: entry.clone() });
        },
    };
    let column = match text::parse_number(parts[3].as_str()) {
        Some(column) => column,
        None => {
            return Err(HistoryError { problem: HistoryProblem::Column, text: entry.clone() });
        },
    };
    Ok(Move { row, column, color })
}

/// An entry of a room's history. The index is not looked at.
pub open spec fn read_entry(entry: Seq<char>) -> Result<Move, Fault> {
    let parts = text::split(entry, ':');
    if parts.len() != 4 {
        Err((HistoryProblem::Entry, entry))
    } else {
        read_move(entry, parts)
    }
}

/// An entry counts unless it is blank or an exclamation mark.
pub open spec fn counts(entry: Seq<char>) -> bool {
    !text::is_blank(entry) && entry != "!"@
}

/// The moves of the entries that count, or what is wrong with the first bad one.
pub open spec fn read_entries(entries: Seq<Seq<char>>) -> Result<Seq<Move>, Fault>
    decreases entries.len(),
{
    if entries.len() == 0 {
        Ok(Seq::empty())
    } else {
        match read_entries(entries.drop_last()) {
            Err(fault) => Err(fault),
            Ok(moves) => if counts(entries.last()) {
                match read_entry(entries.last()) {
                    Ok(mv) => Ok(moves.push(mv)),
                    Err(fault) => Err(fault),
                }
            } else {
                Ok(moves)
            },
        }
    }
}

/// The moves of a room's history, in the order of the entries.
pub open spec fn read_history(history: Seq<char>) -> Result<Seq<Move>, Fault> {
    read_entries(text::split(history, ';'))
}

/// A fault in the first entries is a fault of them all.
proof fn lemma_first_fault(entries: Seq<Seq<char>>, i: int)
    requires
        0 <= i <= entries.len(),
        read_entries(entries.take(i)) is Err,
    ensures
        read_entries(entries) == read_entries(entries.take(i)),
    decreases entries.len() - i,
{
    if i < entries.len() {
        assert(entries.take(i + 1).drop_last() =~= entries.take(i));
        lemma_first_fault(entries, i + 1);
    } else {
        assert(entries.take(i) =~= entries);
    }
}

/// Reads a room's history.
pub fn parse_moves_history(history: &str) -> (r: Result<Vec<Move>, HistoryError>)
    ensures
        match r {
            Ok(moves) => read_history(history@) == Ok::<Seq<Move>, Fault>(moves@),
            Err(e) => read_history(history@) == Err::<Seq<Move>, Fault>(e.fault()),
        },
{
    let entries = text::split_text(history, ';');
    let ghost all = text::views(entries@);
    let mark = "!".to_owned();
    let mut moves: Vec<Move> = Vec::new();
    let mut i: usize = 0;
    assert(all.take(0) =~= Seq::<Seq<char>>::empty());
    assert(moves@ =~= Seq::<Move>::empty());
    while i < entries.len()
        invariant
            i <= entries@.len(),
            all == text::views(entries@),
            all == text::split(history@, ';'),
            mark@ == "!"@,
            read_entries(all.take(i as int)) == Ok::<Seq<Move>, Fault>(moves@),
        decreases entries@.len() - i,
    {
        let entry = &entries[i];
        proof {
            assert(all.take(i + 1).drop_last() =~= all.take(i as int));
            assert(all.take(i + 1).last() == entry@);
        }
        if text::trim_text(entry.as_str()).as_str().is_empty() || *entry == mark {
            i = i + 1;
            continue;
        }
        let parts = text::split_text(entry.as_str(), ':');
        if parts.len() != 4 {
            proof {
                lemma_first_fault(all, i + 1);
            }
            return Err(HistoryError { problem: HistoryProblem::Entry, text: entry.clone() });
        }
        match parse_move(entry, &parts) {
            Ok(mv) => {
                moves.push(mv);
            },
            Err(e) => {
                proof {
                    lemma_first_fault(all, i + 1);
                }
                return Err(e);
            },
        }
        i = i + 1;
    }
    assert(all.take(i as int) =~= all);
    Ok(moves)
}

/// The cells after `moves` are made on the empty board, or why one cannot be made.
pub open spec fn replayed(moves: Seq<Move>) -> Result<rules::Cells, BoardError>
    decreases moves.len(),
{
    if moves.len() == 0 {
        Ok(rules::empty_cells())
    } else {
        match replayed(moves.drop_last()) {
            Err(e) => Err(e),
            Ok(s) => {
                let mv = moves.last();
                let p = Position { row: mv.row, column: mv.column };
                if !rules::holds(p) {
                    Err(BoardError::OutOfBounds(p))
                } else if !rules::is_free(s, p) {
                    Err(BoardError::Occupied(p))
                } else {
                    Ok(rules::put(s, p, mv.color))
                }
            },
        }
    }
}

proof fn lemma_first_bad_move(moves: Seq<Move>, i: int)
    requires
        0 <= i <= moves.len(),
        replayed(moves.take(i)) is Err,
    ensures
        replayed(moves) == replayed(moves.take(i)),
    decreases moves.len() - i,
{
    if i < moves.len() {
        assert(moves.take(i + 1).drop_last() =~= moves.take(i));
        lemma_first_bad_move(moves, i + 1);
    } else {
        assert(moves.take(i) =~= moves);
    }
}

/// Makes `moves` on the empty board.
pub fn replay(moves: &Vec<Move>) -> (r: Result<Board, BoardError>)
    ensures
        match r {
            Ok(board) => replayed(moves@) == Ok::<rules::Cells, BoardError>(board@) && board.hash_matches(),
            Err(e) => replayed(moves@) == Err::<rules::Cells, BoardError>(e),
        },
{
    let mut board = Board::new();
    let mut i: usize = 0;
    assert(moves@.take(0) =~= Seq::<Move>::empty());
    while i < moves.len()
        invariant
            i <= moves@.len(),
            replayed(moves@.take(i as int)) == Ok::<rules::Cells, BoardError>(board@),
            board.hash_matches(),
        decreases moves@.len() - i,
    {
        assert(moves@.take(i + 1).drop_last() =~= moves@.take(i as int));
        match board.apply_move(moves[i]) {
            Ok(()) => {},
            Err(e) => {
                proof {
                    lemma_first_bad_move(moves@, i + 1);
                }
                return Err(e);
            },
        }
        i = i + 1;
    }
    assert(moves@.take(i as int) =~= moves@);
    Ok(board)
}

/// The colour to move after `moves`: the one that did not move last, Black at the beginning.
pub open spec fn turn_after(moves: Seq<Move>) -> Piece {
    if moves.len() == 0 {
        Piece::Black
    } else {
        rules::other(moves.last().color)
    }
}

/// The colour to move after `moves`.
pub fn next_turn(moves: &[Move]) -> (r: Piece)
    ensures
        r == turn_after(moves@),
{
    if moves.len() == 0 {
        Piece::Black
    } else {
        moves[moves.len() - 1].color.opponent()
    }
}

/// An entry of an initial board, without white space and the exclamation marks behind it.
pub open spec fn cleaned(entry: Seq<char>) -> Seq<char> {
    text::trim_end_of(text::trim(entry), '!')
}

/// An entry of an initial board: its index and its move.
pub open spec fn read_indexed(entry: Seq<char>) -> Result<(usize, Move), Fault> {
    let parts = text::split(entry, ':');
    if parts.len() != 4 {
        Err((HistoryProblem::Entry, entry))
    } else {
        match text::number(parts[0]) {
            None => Err((HistoryProblem::Index, entry)),
            Some(index) => match read_move(entry, parts) {
                Ok(mv) => Ok((index, mv)),
                Err(fault) => Err(fault),
            },
        }
    }
}

/// The entries of an initial board that are not empty, or what is wrong with the first bad one.
pub open spec fn read_all_indexed(entries: Seq<Seq<char>>) -> Result<Seq<(usize, Move)>, Fault>
    decreases entries.len(),
{
    if entries.len() == 0 {
        Ok(Seq::empty())
    } else {
        match read_all_indexed(entries.drop_last()) {
            Err(fault) => Err(fault),
            Ok(items) => if cleaned(entries.last()).len() == 0 {
                Ok(items)
            } else {
                match read_indexed(cleaned(entries.last())) {
                    Ok(item) => Ok(items.push(item)),
                    Err(fault) => Err(fault),
                }
            },
        }
    }
}

/// The key by which indexed moves are put in order.
pub open spec fn by_index() -> spec_fn((usize, Move)) -> int {
    |item: (usize, Move)| -(item.0 as int)
}

/// The moves of indexed moves.
pub open spec fn moves_of(items: Seq<(usize, Move)>) -> Seq<Move> {
    Seq::new(items.len(), |i: int| items[i].1)
}

/// The moves of an initial board, in the order of their indices.
pub open spec fn read_initial(history: Seq<char>) -> Result<Seq<Move>, Fault> {
    match read_all_indexed(text::split(history, ';')) {
        Ok(items) => Ok(moves_of(ranking::ranked(items, by_index()))),
        Err(fault) => Err(fault),
    }
}

proof fn lemma_first_indexed_fault(entries: Seq<Seq<char>>, i: int)
    requires
        0 <= i <= entries.len(),
        read_all_indexed(entries.take(i)) is Err,
    ensures
        read_all_indexed(entries) == read_all_indexed(entries.take(i)),
    decreases entries.len() - i,
{
    if i < entries.len() {
        assert(entries.take(i + 1).drop_last() =~= entries.take(i));
        lemma_first_indexed_fault(entries, i + 1);
    } else {
        assert(entries.take(i) =~= entries);
    }
}

/// Reads the entries of an initial board.
fn parse_indexed(history: &str) -> (r: Result<Vec<(usize, Move)>, HistoryError>)
    ensures
        match r {
            Ok(items) => read_all_indexed(text::split(history@, ';')) == Ok::<Seq<(usize, Move)>, Fault>(items@),
            Err(e) => read_all_indexed(text::split(history@, ';')) == Err::<Seq<(usize, Move)>, Fault>(e.fault()),
        },
{
    let entries = text::split_text(history, ';');
    let ghost all = text::views(entries@);
    let mut items: Vec<(usize, Move)> = Vec::new();
    let mut i: usize = 0;
    assert(all.take(0) =~= Seq::<Seq<char>>::empty());
    assert(items@ =~= Seq::<(usize, Move)>::empty());
    while i < entries.len()
        invariant
            i <= entries@.len(),
            all == text::views(entries@),
            all == text::split(history@, ';'),
            read_all_indexed(all.take(i as int)) == Ok::<Seq<(usize, Move)>, Fault>(items@),
        decreases entries@.len() - i,
    {
        proof {
            assert(all.take(i + 1).drop_last() =~= all.take(i as int));
            assert(all.take(i + 1).last() == entries@[i as int]@);
        }
        let entry = text::trim_end_text(text::trim_text(entries[i].as_str()).as_str(), '!');
        if entry.as_str().is_empty() {
            i = i + 1;
            continue;
        }
        let parts = text::split_text(entry.as_str(), ':');
        if parts.len() != 4 {
            proof {
                lemma_first_indexed_fault(all, i + 1);
            }
            return Err(HistoryError { problem: HistoryProblem::Entry, text: entry });
        }
        assert(text::views(parts@)[0] == parts@[0]@);
        let index = match text::parse_number(parts[0].as_str()) {
            Some(index) => index,
            None => {
                proof {
                    lemma_first_indexed_fault(all, i + 1);
                }
                return Err(HistoryError { problem: HistoryProblem::Index, text: entry });
            },
        };
        match parse_move(&entry, &parts) {
            Ok(mv) => {
                items.push((index, mv));
            },
            Err(e) => {
                proof {
                    lemma_first_indexed_fault(all, i + 1);
                }
                return Err(e);
            },
        }
        i = i + 1;
    }
    assert(all.take(i as int) =~= all);
    Ok(items)
}

/// Puts indexed moves in order.
fn in_order(items: Vec<(usize, Move)>) -> (r: Vec<Move>)
    ensures
        r@ == moves_of(ranking::ranked(items@, by_index())),
{
    let mut keyed: Vec<((usize, Move), i128)> = Vec::new();
    let mut i: usize = 0;
    while i < items.len()
        invariant
            i <= items@.len(),
            keyed@.len() == i,
            forall|k: int| 0 <= k < i ==> (#[trigger] keyed@[k]).0 == items@[k] && keyed@[k].1 == by_index()(items@[k]),
        decreases items@.len() - i,
    {
        keyed.push((items[i], -(items[i].0 as i128)));
        i = i + 1;
    }
    assert(ranking::firsts(keyed@) =~= items@);
    let sorted = ranking::rank_by(keyed, Ghost(by_index()));
    let mut r: Vec<Move> = Vec::new();
    let mut j: usize = 0;
    while j < sorted.len()
        invariant
            j <= sorted@.len(),
            r@ == moves_of(sorted@).take(j as int),
        decreases sorted@.len() - j,
    {
        r.push(sorted[j].1);
        assert(r@ =~= moves_of(sorted@).take(j + 1));
        j = j + 1;
    }
    assert(moves_of(sorted@).take(j as int) =~= moves_of(sorted@));
    r
}

/// The colour to move on a board with `n` stones: Black where it is even.
pub open spec fn turn_by_count(n: int) -> Piece {
    if n % 2 == 0 {
        Piece::Black
    } else {
        Piece::White
    }
}

/// Reads an initial board: the board, the colour to move, and the moves in the order of their
/// indices.
pub fn board_from_moves_history(history: &str) -> (r: Result<(Board, Piece, Vec<Move>), HistoryError>)
    ensures
        match read_initial(history@) {
            Err(fault) => r matches Err(e) && e.fault() == fault,
            Ok(moves) => match replayed(moves) {
                Err(e) => r matches Err(f) && f.fault() == (HistoryProblem::Move(e), Seq::<char>::empty()),
                Ok(s) => r matches Ok(b) && b.0@ == s && b.0.hash_matches() && b.1 == turn_by_count(rules::stones(s))
                    && b.2@ == moves,
            },
        },
{
    let items = match parse_indexed(history) {
        Ok(items) => items,
        Err(e) => {
            return Err(e);
        },
    };
    let moves = in_order(items);
    let board = match replay(&moves) {
        Ok(board) => board,
        Err(e) => {
            return Err(HistoryError { problem: HistoryProblem::Move(e), text: String::new() });
        },
    };
    let turn = if board.move_count() % 2 == 0 {
        Piece::Black
    } else {
        Piece::White
    };
    Ok((board, turn, moves))
}

/// The entries of the first `n` moves, one by one.
spec fn entry_list(moves: Seq<Move>, n: int) -> Seq<Seq<char>> {
    Seq::new(n as nat, |i: int| entry_text(i, moves[i]))
}

/// What the characters of an entry are, and what it is split into.
proof fn lemma_entry(index: int, mv: Move)
    requires
        0 <= index,
    ensures
        entry_text(index, mv).len() > 0,
        text::is_digit(entry_text(index, mv)[0]),
        text::is_digit(entry_text(index, mv).last()),
        !entry_text(index, mv).contains(';'),
        text::split(entry_text(index, mv), ':') == seq![
            text::decimal(index as nat),
            color_text(mv.color),
            text::decimal(mv.row as nat),
            text::decimal(mv.column as nat),
        ],
        color_named(color_text(mv.color)) == Some(mv.color),
{
    reveal_strlit("Black");
    reveal_strlit("White");
    let a = text::decimal(index as nat);
    let b = color_text(mv.color);
    let c = text::decimal(mv.row as nat);
    let d = text::decimal(mv.column as nat);
    text::lemma_decimal(index as nat);
    text::lemma_decimal(mv.row as nat);
    text::lemma_decimal(mv.column as nat);
    let e = entry_text(index, mv);
    assert(e[0] == a[0]);
    assert(e.last() == d[d.len() - 1]);
    assert("Black"@[0] != "White"@[0]);
    assert forall|i: int| 0 <= i < e.len() implies e[i] != ';' by {
        if i < a.len() {
            assert(e[i] == a[i]);
        } else if i == a.len() {
        } else if i < a.len() + 1 + b.len() {
            assert(e[i] == b[i - a.len() - 1]);
        } else if i == a.len() + 1 + b.len() {
        } else if i < a.len() + 1 + b.len() + 1 + c.len() {
            assert(e[i] == c[i - a.len() - 1 - b.len() - 1]);
        } else if i == a.len() + 1 + b.len() + 1 + c.len() {
        } else {
            assert(e[i] == d[i - a.len() - 1 - b.len() - 1 - c.len() - 1]);
        }
    }
    let cd = c.push(':') + d;
    let bcd = b.push(':') + cd;
    assert(e =~= a.push(':') + bcd);
    assert(!a.contains(':') && !c.contains(':') && !d.contains(':'));
    assert(!b.contains(':'));
    text::lemma_split_join(a, bcd, ':');
    text::lemma_split_join(b, cd, ':');
    text::lemma_split_join(c, d, ':');
    text::lemma_split_none(a, ':');
    text::lemma_split_none(b, ':');
    text::lemma_split_none(c, ':');
    text::lemma_split_none(d, ':');
    assert(text::split(e, ':') =~= seq![a, b, c, d]);
}

proof fn lemma_entries_split(moves: Seq<Move>, n: int)
    requires
        0 <= n <= moves.len(),
    ensures
        text::split(entries_text(moves, n), ';') == entry_list(moves, n).push(Seq::empty()),
    decreases n,
{
    if n == 0 {
        assert(entry_list(moves, 0).push(Seq::empty()) =~= seq![Seq::<char>::empty()]);
    } else {
        lemma_entries_split(moves, n - 1);
        let before = entries_text(moves, n - 1);
        let e = entry_text(n - 1, moves[n - 1]);
        lemma_entry(n - 1, moves[n - 1]);
        text::lemma_split_append(before, e, ';');
        text::lemma_split_join(before + e, Seq::empty(), ';');
        assert(entries_text(moves, n) =~= (before + e).push(';') + Seq::<char>::empty());
        let l = entry_list(moves, n - 1);
        assert(l.push(Seq::empty()).drop_last() =~= l);
        assert(Seq::<char>::empty() + e =~= e);
        assert(text::split(Seq::<char>::empty(), ';') =~= seq![Seq::<char>::empty()]);
        assert(text::split(entries_text(moves, n), ';') =~= entry_list(moves, n).push(Seq::empty()));
    }
}

proof fn lemma_history_split(moves: Seq<Move>)
    ensures
        text::split(history_text(moves), ';') == entry_list(moves, moves.len() as int).push("!"@),
{
    reveal_strlit("!");
    let n = moves.len() as int;
    lemma_entries_split(moves, n);
    let mark = seq!['!'];
    assert("!"@ =~= mark);
    assert(!mark.contains(';'));
    text::lemma_split_append(entries_text(moves, n), mark, ';');
    assert(history_text(moves) =~= entries_text(moves, n) + mark);
    let l = entry_list(moves, n);
    assert(l.push(Seq::empty()).drop_last() =~= l);
    assert(Seq::<char>::empty() + mark =~= mark);
}

proof fn lemma_read_own_entries(moves: Seq<Move>, n: int)
    requires
        0 <= n <= moves.len(),
    ensures
        read_entries(entry_list(moves, n)) == Ok::<Seq<Move>, Fault>(moves.take(n)),
    decreases n,
{
    if n == 0 {
        assert(moves.take(0) =~= Seq::<Move>::empty());
    } else {
        lemma_read_own_entries(moves, n - 1);
        let mv = moves[n - 1];
        let e = entry_text(n - 1, mv);
        lemma_entry(n - 1, mv);
        text::lemma_trim_none(e);
        text::law_number_reads_decimal(mv.row);
        text::law_number_reads_decimal(mv.column);
        reveal_strlit("!");
        assert("!"@[0] == '!');
        assert(entry_list(moves, n).drop_last() =~= entry_list(moves, n - 1));
        assert(moves.take(n - 1).push(mv) =~= moves.take(n));
    }
}

/// Reading a history gives back the moves that it was written from.
pub proof fn law_history_round_trip(moves: Seq<Move>)
    ensures
        read_history(history_text(moves)) == Ok::<Seq<Move>, Fault>(moves),
{
    let n = moves.len() as int;
    lemma_history_split(moves);
    lemma_read_own_entries(moves, n);
    let all = entry_list(moves, n).push("!"@);
    assert(all.drop_last() =~= entry_list(moves, n));
    assert(moves.take(n) =~= moves);
}

/// The first `n` moves with their indices.
spec fn indexed(moves: Seq<Move>, n: int) -> Seq<(usize, Move)> {
    Seq::new(n as nat, |i: int| (i as usize, moves[i]))
}

proof fn lemma_read_own_indexed(moves: Seq<Move>, n: int)
    requires
        0 <= n <= moves.len() <= usize::MAX,
    ensures
        read_all_indexed(entry_list(moves, n)) == Ok::<Seq<(usize, Move)>, Fault>(indexed(moves, n)),
    decreases n,
{
    if n == 0 {
        assert(indexed(moves, 0) =~= Seq::<(usize, Move)>::empty());
    } else {
        lemma_read_own_indexed(moves, n - 1);
        let mv = moves[n - 1];
        let e = entry_text(n - 1, mv);
        lemma_entry(n - 1, mv);
        text::lemma_trim_none(e);
        text::law_number_reads_decimal((n - 1) as usize);
        text::law_number_reads_decimal(mv.row);
        text::law_number_reads_decimal(mv.column);
        assert(cleaned(e) == e);
        assert(entry_list(moves, n).drop_last() =~= entry_list(moves, n - 1));
        assert(indexed(moves, n - 1).push(((n - 1) as usize, mv)) =~= indexed(moves, n));
    }
}

/// Reading an initial board gives back the moves that its history was written from.
pub proof fn law_initial_board_round_trip(moves: Seq<Move>)
    requires
        moves.len() <= usize::MAX,
    ensures
        read_initial(history_text(moves)) == Ok::<Seq<Move>, Fault>(moves),
{
    let n = moves.len() as int;
    lemma_history_split(moves);
    lemma_read_own_indexed(moves, n);
    let all = entry_list(moves, n).push("!"@);
    assert(all.drop_last() =~= entry_list(moves, n));
    assert(cleaned("!"@).len() == 0) by {
        reveal_strlit("!");
        assert("!"@ =~= seq!['!']);
        text::lemma_trim_none("!"@);
        assert("!"@.drop_last() =~= Seq::<char>::empty());
        assert(text::trim_end_of(Seq::<char>::empty(), '!') == Seq::<char>::empty());
    }
    let items = indexed(moves, n);
    assert(ranking::falls(items, by_index()));
    ranking::lemma_ranked_already(items, by_index());
    assert(moves_of(items) =~= moves);
}

/// Where the moves of a history can all be made, the board that is read from it holds a stone for
/// each of them.
pub proof fn law_every_move_is_a_stone(moves: Seq<Move>)
    requires
        replayed(moves) is Ok,
    ensures
        rules::stones(replayed(moves)->Ok_0) == moves.len(),
        rules::is_cells(replayed(moves)->Ok_0),
    decreases moves.len(),
{
    if moves.len() == 0 {
        rules::lemma_stones_bounds(rules::empty_cells(), 324);
    } else {
        law_every_move_is_a_stone(moves.drop_last());
        let s = replayed(moves.drop_last())->Ok_0;
        let mv = moves.last();
        let p = Position { row: mv.row, column: mv.column };
        rules::lemma_stones_update(s, rules::index(p), Some(mv.color), 324);
    }
}

} // verus!
