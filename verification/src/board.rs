//! The board: stones, moves, and what a move is worth.
use vstd::prelude::*;

use crate::rules;
use crate::text;
use crate::zobrist;

verus! {

/// The number of rows, and of columns.
pub const BOARD_SIZE: usize = 18;

/// The row, and the column, of the centre.
pub const CENTER: usize = 9;

/// How far from a stone a move is worth looking at.
const MAX_STEPS_FROM_STONE: usize = 2;

/// The number of cells.
const AREA: usize = 324;

pub const SCORE_FIVE: i32 = 1_000_000;

pub const SCORE_OPEN_FOUR: i32 = 100_000;

pub const SCORE_FOUR: i32 = 25_000;

pub const SCORE_OPEN_THREE: i32 = 8_000;

/// The score of a cell that no stone can be put on: a quarter of the least `i32`.
pub const SCORE_UNPLAYABLE: i32 = -536_870_912;

/// The colour of a stone.
#[derive(Copy, Clone, Debug, PartialEq, Eq, Structural)]
pub enum Piece {
    Black,
    White,
}

impl Piece {
    /// The other colour.
    pub fn opponent(self) -> (r: Self)
        ensures
            r == rules::other(self),
    {
        match self {
            Piece::Black => Piece::White,
            Piece::White => Piece::Black,
        }
    }
}

/// A cell, given by its row and its column.
#[derive(Copy, Clone, Debug, PartialEq, Eq, Structural)]
pub struct Position {
    pub row: usize,
    pub column: usize,
}

impl Position {
    pub fn new(row: usize, column: usize) -> (r: Self)
        ensures
            r == (Position { row, column }),
    {
        Self { row, column }
    }
}

/// A stone of colour `color` put on a cell.
#[derive(Copy, Clone, Debug, PartialEq, Eq, Structural)]
pub struct Move {
    pub row: usize,
    pub column: usize,
    pub color: Piece,
}

impl From<Move> for Position {
    fn from(value: Move) -> (r: Self) {
        Self { row: value.row, column: value.column }
    }
}

impl vstd::std_specs::convert::FromSpecImpl<Move> for Position {
    open spec fn obeys_from_spec() -> bool {
        true
    }

    open spec fn from_spec(value: Move) -> Self {
        Position { row: value.row, column: value.column }
    }
}

/// Why a stone could not be put on a cell.
#[derive(Copy, Clone, Debug, PartialEq, Eq, Structural)]
pub enum BoardError {
    OutOfBounds(Position),
    Occupied(Position),
}

/// "(row, column)" in decimal notation.
pub open spec fn position_text(p: Position) -> Seq<char> {
    "("@ + text::decimal(p.row as nat) + ", "@ + text::decimal(p.column as nat) + ")"@
}

impl BoardError {
    /// What the error says to a reader.
    pub open spec fn message_spec(self) -> Seq<char> {
        match self {
            BoardError::OutOfBounds(p) => "position out of bounds: "@ + position_text(p),
            BoardError::Occupied(p) => "position already occupied: "@ + position_text(p),
        }
    }

    /// The error in words.
    pub fn message(&self) -> (s: String)
        ensures
            s@ == self.message_spec(),
    {
        let (mut s, p): (String, Position) = match self {
            BoardError::OutOfBounds(p) => ("position out of bounds: ".to_owned(), *p),
            BoardError::Occupied(p) => ("position already occupied: ".to_owned(), *p),
        };
        s.append("(");
        text::push_decimal(&mut s, p.row as u64);
        s.append(", ");
        text::push_decimal(&mut s, p.column as u64);
        s.append(")");
        assert(s@ =~= self.message_spec());
        s
    }
}

/// The stones, row by row, and their number.
#[derive(Debug, PartialEq, Eq)]
pub struct Grid {
    cells: [Option<Piece>; AREA],
    move_count: usize,
}

impl Grid {
    #[verifier::type_invariant]
    spec fn counts_its_stones(self) -> bool {
        self.move_count == rules::stones(self.cells@)
    }
}

/// A position of the game, with the hash of its stones.
#[derive(Debug, PartialEq, Eq)]
pub struct Board {
    pub grid: Grid,
    pub hash: u64,
}

impl View for Grid {
    type V = Seq<Option<Piece>>;

    closed spec fn view(&self) -> Seq<Option<Piece>> {
        self.cells@
    }
}

impl View for Board {
    type V = Seq<Option<Piece>>;

    open spec fn view(&self) -> Seq<Option<Piece>> {
        self.grid@
    }
}

/// A board has one entry for each cell.
pub broadcast proof fn board_has_every_cell(b: Board)
    ensures
        #[trigger] b@.len() == 324,
{
}

impl Clone for Board {
    fn clone(&self) -> (r: Self)
        ensures
            r@ == self@,
            r.hash == self.hash,
    {
        proof {
            use_type_invariant(&self.grid);
        }
        Board { grid: Grid { cells: self.grid.cells, move_count: self.grid.move_count }, hash: self.hash }
    }
}

/// What one look at a position shows one of the players.
#[derive(Copy, Clone, Debug, PartialEq, Eq, Structural)]
pub struct BoardInsights {
    pub candidate_count: usize,
    pub self_winning_moves: usize,
    pub opponent_winning_moves: usize,
    pub best_self_score: i32,
    pub best_opponent_score: i32,
}

impl Default for BoardInsights {
    fn default() -> (r: Self)
        ensures
            r == (BoardInsights {
                candidate_count: 0,
                self_winning_moves: 0,
                opponent_winning_moves: 0,
                best_self_score: 0,
                best_opponent_score: 0,
            }),
    {
        BoardInsights {
            candidate_count: 0,
            self_winning_moves: 0,
            opponent_winning_moves: 0,
            best_self_score: 0,
            best_opponent_score: 0,
        }
    }
}

fn piece_index(piece: Piece) -> (r: usize)
    ensures
        r == rules::color_index(piece),
        r < 2,
{
    match piece {
        Piece::Black => 0,
        Piece::White => 1,
    }
}

impl Board {
    /// The hash is that of the stones on the board.
    pub open spec fn hash_matches(&self) -> bool {
        self.hash == rules::hash_of(self@)
    }

    /// The board without stones.
    pub fn new() -> (b: Self)
        ensures
            b@ == rules::empty_cells(),
            b.hash == 0,
            b.hash_matches(),
    {
        let cells: [Option<Piece>; AREA] = [None; AREA];
        proof {
            assert(cells@ =~= rules::empty_cells());
            rules::lemma_stones_bounds(cells@, 324);
            rules::lemma_empty_hash(324);
        }
        Board { grid: Grid { cells, move_count: 0 }, hash: 0 }
    }

    /// The number of stones.
    pub fn move_count(&self) -> (n: usize)
        ensures
            n == rules::stones(self@),
            n <= 324,
    {
        proof {
            use_type_invariant(&self.grid);
            rules::lemma_stones_bounds(self@, 324);
        }
        self.grid.move_count
    }

    /// There is no stone on the board.
    pub fn is_empty(&self) -> (r: bool)
        ensures
            r == (rules::stones(self@) == 0),
            r == (self@ == rules::empty_cells()),
    {
        proof {
            use_type_invariant(&self.grid);
            rules::lemma_stones_bounds(self@, 324);
            assert(rules::stones(self@) == 0 ==> self@ =~= rules::empty_cells());
        }
        self.grid.move_count == 0
    }

    /// `position` is a cell of the board.
    pub fn in_bounds(position: Position) -> (r: bool)
        ensures
            r == rules::holds(position),
    {
        position.row < BOARD_SIZE && position.column < BOARD_SIZE
    }

    /// What lies on `position`; nothing lies off the board.
    pub fn get(&self, position: Position) -> (r: Option<Piece>)
        ensures
            r == rules::at(self@, position.row as int, position.column as int),
    {
        if Self::in_bounds(position) {
            self.grid.cells[position.row * BOARD_SIZE + position.column]
        } else {
            None
        }
    }

    /// No stone lies on `position`.
    pub fn is_empty_at(&self, position: Position) -> (r: bool)
        ensures
            r == rules::at(self@, position.row as int, position.column as int) is None,
    {
        self.get(position).is_none()
    }

    /// Puts a stone of colour `piece` on a free cell.
    pub fn place(&mut self, position: Position, piece: Piece) -> (r: Result<(), BoardError>)
        ensures
            r == (if !rules::holds(position) {
                Err(BoardError::OutOfBounds(position))
            } else if !rules::is_free(old(self)@, position) {
                Err(BoardError::Occupied(position))
            } else {
                Ok(())
            }),
            r is Err ==> *final(self) == *old(self),
            r is Ok ==> final(self)@ == rules::put(old(self)@, position, piece),
            r is Ok ==> final(self).hash == old(self).hash ^ rules::stone_key(position, piece),
            r is Ok ==> rules::stones(final(self)@) == rules::stones(old(self)@) + 1,
            old(self).hash_matches() ==> final(self).hash_matches(),
    {
        if !Self::in_bounds(position) {
            return Err(BoardError::OutOfBounds(position));
        }
        let index: usize = position.row * BOARD_SIZE + position.column;
        if self.grid.cells[index].is_some() {
            return Err(BoardError::Occupied(position));
        }
        proof {
            use_type_invariant(&self.grid);
            rules::lemma_stones_update(self@, index as int, Some(piece), 324);
            rules::lemma_stones_bounds(self@, 324);
            rules::lemma_hash_place(self@, position, piece);
        }
        let mut cells = self.grid.cells;
        cells[index] = Some(piece);
        self.hash = self.hash ^ zobrist::table()[position.row][position.column][piece_index(piece)];
        self.grid = Grid { cells, move_count: self.grid.move_count + 1 };
        Ok(())
    }

    /// Takes away what lies on `position`.
    pub fn undo(&mut self, position: Position)
        requires
            rules::holds(position),
        ensures
            final(self)@ == rules::take(old(self)@, position),
            final(self).hash == (match old(self)@[rules::index(position)] {
                Some(piece) => old(self).hash ^ rules::stone_key(position, piece),
                None => old(self).hash,
            }),
            rules::stones(final(self)@) == rules::stones(old(self)@) - (if rules::is_free(old(self)@, position) {
                0int
            } else {
                1
            }),
            old(self).hash_matches() ==> final(self).hash_matches(),
    {
        let index: usize = position.row * BOARD_SIZE + position.column;
        proof {
            use_type_invariant(&self.grid);
            rules::lemma_stones_update(self@, index as int, None, 324);
            rules::lemma_stones_bounds(self@, 324);
            rules::lemma_stones_bounds(rules::take(self@, position), 324);
            rules::lemma_hash_take(self@, position);
        }
        match self.grid.cells[index] {
            Some(piece) => {
                let mut cells = self.grid.cells;
                cells[index] = None;
                self.hash = self.hash ^ zobrist::table()[position.row][position.column][piece_index(piece)];
                self.grid = Grid { cells, move_count: self.grid.move_count - 1 };
            },
            None => {
                assert(self@ =~= rules::take(self@, position));
            },
        }
    }

    /// Puts the stone of `mv` on its cell.
    pub fn apply_move(&mut self, mv: Move) -> (r: Result<(), BoardError>)
        ensures
            r == (if !rules::on_board(mv.row as int, mv.column as int) {
                Err(BoardError::OutOfBounds(Position { row: mv.row, column: mv.column }))
            } else if rules::at(old(self)@, mv.row as int, mv.column as int) is Some {
                Err(BoardError::Occupied(Position { row: mv.row, column: mv.column }))
            } else {
                Ok(())
            }),
            r is Err ==> *final(self) == *old(self),
            r is Ok ==> final(self)@ == rules::put(
                old(self)@,
                Position { row: mv.row, column: mv.column },
                mv.color,
            ),
            r is Ok ==> final(self).hash == old(self).hash ^ rules::stone_key(
                Position { row: mv.row, column: mv.column },
                mv.color,
            ),
            old(self).hash_matches() ==> final(self).hash_matches(),
    {
        self.place(Position::new(mv.row, mv.column), mv.color)
    }

    /// Every cell, row by row.
    pub fn iter_positions(&self) -> (r: Vec<Position>)
        ensures
            r@ == Seq::new(324, |n: int| rules::position(n)),
    {
        let mut r: Vec<Position> = Vec::new();
        let mut row: usize = 0;
        while row < BOARD_SIZE
            invariant
                row <= 18,
                r@ == Seq::new((18 * row) as nat, |n: int| rules::position(n)),
            decreases 18 - row,
        {
            let mut column: usize = 0;
            while column < BOARD_SIZE
                invariant
                    row < 18,
                    column <= 18,
                    r@ == Seq::new((18 * row + column) as nat, |n: int| rules::position(n)),
                decreases 18 - column,
            {
                r.push(Position::new(row, column));
                column = column + 1;
            }
            row = row + 1;
        }
        r
    }

    /// The free cells at most two steps from a stone, each once, in the order in which a row by
    /// row walk over the stones meets them; the centre where there is no stone.
    pub fn candidate_positions(&self) -> (r: Vec<Position>)
        ensures
            r@ == rules::candidates(self@),
    {
        if self.is_empty() {
            let mut only: Vec<Position> = Vec::new();
            only.push(Position::new(CENTER, CENTER));
            return only;
        }
        let ghost s = self@;
        let mut seen: [bool; AREA] = [false; AREA];
        let mut found: Vec<Position> = Vec::new();
        assert(rules::marks(seen@, found@));
        let mut row: usize = 0;
        while row < BOARD_SIZE
            invariant
                row <= 18,
                s == self@,
                found@ == rules::near_stones(s, 18 * row),
                rules::marks(seen@, found@),
            decreases 18 - row,
        {
            let mut column: usize = 0;
            while column < BOARD_SIZE
                invariant
                    row < 18,
                    column <= 18,
                    s == self@,
                    found@ == rules::near_stones(s, 18 * row + column),
                    rules::marks(seen@, found@),
                decreases 18 - column,
            {
                if self.is_empty_at(Position::new(row, column)) {
                    column = column + 1;
                } else {
                    self.add_near(row, column, &mut seen, &mut found);
                    column = column + 1;
                }
            }
            row = row + 1;
        }
        found
    }

    /// Adds to `found` the free cells near (row, column) that `seen` does not mark, row by row.
    fn add_near(&self, row: usize, column: usize, seen: &mut [bool; AREA], found: &mut Vec<Position>)
        requires
            row < 18,
            column < 18,
            rules::marks(old(seen)@, old(found)@),
        ensures
            final(found)@ == rules::reach(self@, old(found)@, 18 * row + column, 324),
            rules::marks(final(seen)@, final(found)@),
    {
        let ghost s = self@;
        let ghost n = 18 * row + column;
        let ghost before = found@;
        let row_start: usize = if row < MAX_STEPS_FROM_STONE {
            0
        } else {
            row - MAX_STEPS_FROM_STONE
        };
        let row_end: usize = if row + MAX_STEPS_FROM_STONE < BOARD_SIZE {
            row + MAX_STEPS_FROM_STONE
        } else {
            BOARD_SIZE - 1
        };
        let column_start: usize = if column < MAX_STEPS_FROM_STONE {
            0
        } else {
            column - MAX_STEPS_FROM_STONE
        };
        let column_end: usize = if column + MAX_STEPS_FROM_STONE < BOARD_SIZE {
            column + MAX_STEPS_FROM_STONE
        } else {
            BOARD_SIZE - 1
        };
        proof {
            rules::lemma_reach_rows(s, before, row as int, column as int, 0, row_start as int);
        }
        let mut r: usize = row_start;
        while r <= row_end
            invariant
                row < 18,
                column < 18,
                n == 18 * row + column,
                row_start == if row < 2 { 0 } else { row - 2 },
                row_end == if row + 2 < 18 { row + 2 } else { 17 },
                column_start == if column < 2 { 0 } else { column - 2 },
                column_end == if column + 2 < 18 { column + 2 } else { 17 },
                row_start <= r <= row_end + 1,
                s == self@,
                found@ == rules::reach(s, before, n, 18 * r),
                rules::marks(seen@, found@),
            decreases row_end + 1 - r,
        {
            proof {
                rules::lemma_reach_columns(s, before, row as int, column as int, r as int, 0, column_start as int);
            }
            let mut c: usize = column_start;
            while c <= column_end
                invariant
                    row < 18,
                    column < 18,
                    n == 18 * row + column,
                    row_start == if row < 2 { 0 } else { row - 2 },
                    row_end == if row + 2 < 18 { row + 2 } else { 17 },
                    column_start == if column < 2 { 0 } else { column - 2 },
                    column_end == if column + 2 < 18 { column + 2 } else { 17 },
                    row_start <= r <= row_end,
                    column_start <= c <= column_end + 1,
                    s == self@,
                    found@ == rules::reach(s, before, n, 18 * r + c),
                    rules::marks(seen@, found@),
                decreases column_end + 1 - c,
            {
                let position = Position::new(r, c);
                let index: usize = r * BOARD_SIZE + c;
                proof {
                    rules::lemma_cell(row as int, column as int, r as int, c as int);
                }
                if self.is_empty_at(position) && !seen[index] {
                    proof {
                        rules::lemma_marks_push(seen@, found@, index as int);
                    }
                    seen[index] = true;
                    found.push(position);
                }
                c = c + 1;
            }
            proof {
                rules::lemma_reach_columns(s, before, row as int, column as int, r as int, column_end + 1, 18);
            }
            r = r + 1;
        }
        proof {
            rules::lemma_reach_rows(s, before, row as int, column as int, row_end + 1, 18);
        }
    }

    /// The candidates that make five in a row for `color`.
    pub fn winning_moves(&self, color: Piece) -> (r: Vec<Position>)
        ensures
            r@ == rules::winning_moves(self@, color),
    {
        let candidates = self.candidate_positions();
        let ghost pred = rules::winning(self@, color);
        let mut r: Vec<Position> = Vec::new();
        let mut i: usize = 0;
        proof {
            reveal(Seq::filter);
        }
        while i < candidates.len()
            invariant
                i <= candidates@.len(),
                pred == rules::winning(self@, color),
                r@ == candidates@.take(i as int).filter(pred),
            decreases candidates@.len() - i,
        {
            proof {
                rules::lemma_filter_step(candidates@, pred, i as int);
            }
            if self.would_win(candidates[i], color) {
                r.push(candidates[i]);
            }
            i = i + 1;
        }
        assert(candidates@.take(i as int) =~= candidates@);
        r
    }

    /// Some candidate makes five in a row for `color`.
    pub fn has_winning_move(&self, color: Piece) -> (r: bool)
        ensures
            r == rules::has_winning_move(self@, color),
    {
        self.first_winning_move(color).is_some()
    }

    /// The first candidate that makes five in a row for `color`.
    pub fn first_winning_move(&self, color: Piece) -> (r: Option<Position>)
        ensures
            r == rules::first_winning_move(self@, color),
    {
        let candidates = self.candidate_positions();
        let ghost pred = rules::winning(self@, color);
        let mut i: usize = 0;
        proof {
            reveal(Seq::filter);
        }
        while i < candidates.len()
            invariant
                i <= candidates@.len(),
                candidates@ == rules::candidates(self@),
                pred == rules::winning(self@, color),
                candidates@.take(i as int).filter(pred).len() == 0,
            decreases candidates@.len() - i,
        {
            proof {
                rules::lemma_filter_step(candidates@, pred, i as int);
            }
            if self.would_win(candidates[i], color) {
                proof {
                    rules::lemma_filter_prefix(candidates@, pred, i + 1);
                }
                return Some(candidates[i]);
            }
            i = i + 1;
        }
        assert(candidates@.take(i as int) =~= candidates@);
        None
    }

    /// The number of winning moves up to `cap`, stopping early once `cap` is reached.
    pub fn count_winning_moves_up_to(&self, color: Piece, cap: usize) -> (r: usize)
        ensures
            r == (if rules::winning_moves(self@, color).len() < cap {
                rules::winning_moves(self@, color).len() as int
            } else {
                cap as int
            }),
    {
        let candidates = self.candidate_positions();
        let ghost pred = rules::winning(self@, color);
        let mut count: usize = 0;
        let mut i: usize = 0;
        proof {
            reveal(Seq::filter);
        }
        while i < candidates.len() && count < cap
            invariant
                i <= candidates@.len(),
                candidates@ == rules::candidates(self@),
                pred == rules::winning(self@, color),
                count == candidates@.take(i as int).filter(pred).len(),
                count <= cap,
            decreases candidates@.len() - i,
        {
            proof {
                rules::lemma_filter_step(candidates@, pred, i as int);
            }
            if self.would_win(candidates[i], color) {
                count = count + 1;
            }
            i = i + 1;
        }
        proof {
            rules::lemma_filter_prefix(candidates@, pred, i as int);
            assert(candidates@.take(candidates@.len() as int) =~= candidates@);
        }
        count
    }

    /// A stone of colour `color` on `position` makes five in a row.
    pub fn would_win(&self, position: Position, color: Piece) -> (r: bool)
        ensures
            r == rules::would_win(self@, position, color),
    {
        if !Self::in_bounds(position) || !self.is_empty_at(position) {
            return false;
        }
        let ghost r = position.row as int;
        let ghost c = position.column as int;
        proof {
            assert(rules::direction(0) == (1int, 0int) && rules::direction(1) == (0int, 1int) && rules::direction(2)
                == (1int, 1int) && rules::direction(3) == (1int, -1int));
            rules::lemma_direction_score(self@, r, c, 1, 0, color);
            rules::lemma_direction_score(self@, r, c, 0, 1, color);
            rules::lemma_direction_score(self@, r, c, 1, 1, color);
            rules::lemma_direction_score(self@, r, c, 1, -1, color);
        }
        let down = self.score_direction(position, color, 1, 0).five_in_a_row;
        let right = self.score_direction(position, color, 0, 1).five_in_a_row;
        let falling = self.score_direction(position, color, 1, 1).five_in_a_row;
        let rising = self.score_direction(position, color, 1, -1).five_in_a_row;
        proof {
            assert(down ==> rules::direction_wins(self@, r, c, rules::direction(0).0, rules::direction(0).1, color));
            assert(right ==> rules::direction_wins(self@, r, c, rules::direction(1).0, rules::direction(1).1, color));
            assert(falling ==> rules::direction_wins(self@, r, c, rules::direction(2).0, rules::direction(2).1, color));
            assert(rising ==> rules::direction_wins(self@, r, c, rules::direction(3).0, rules::direction(3).1, color));
        }
        down || right || falling || rising
    }

    /// The value of a stone of colour `color` on `position`.
    pub fn score_move(&self, position: Position, color: Piece) -> (r: i32)
        ensures
            r == rules::score(self@, position, color),
    {
        if !Self::in_bounds(position) || !self.is_empty_at(position) {
            return SCORE_UNPLAYABLE;
        }
        proof {
            let r = position.row as int;
            let c = position.column as int;
            rules::lemma_direction_score(self@, r, c, 1, 0, color);
            rules::lemma_direction_score(self@, r, c, 0, 1, color);
            rules::lemma_direction_score(self@, r, c, 1, 1, color);
            rules::lemma_direction_score(self@, r, c, 1, -1, color);
        }
        let down = self.score_direction(position, color, 1, 0).score;
        let right = self.score_direction(position, color, 0, 1).score;
        let falling = self.score_direction(position, color, 1, 1).score;
        let rising = self.score_direction(position, color, 1, -1).score;
        self.center_bonus(position) + down + right + falling + rising
    }

    /// The sum of the three greatest scores that `color` has on the candidates.
    pub fn evaluate_for(&self, color: Piece) -> (r: i32)
        ensures
            r == rules::evaluation(self@, rules::candidates(self@), color),
    {
        let candidates = self.candidate_positions();
        self.evaluate_for_candidates(color, candidates.as_slice())
    }

    /// The sum of the three greatest scores that `color` has on `candidates`.
    pub fn evaluate_for_candidates(&self, color: Piece, candidates: &[Position]) -> (r: i32)
        ensures
            r == rules::evaluation(self@, candidates@, color),
    {
        let ghost all = rules::scores(self@, candidates@, color);
        let mut top: [i32; 3] = [SCORE_NONE, SCORE_NONE, SCORE_NONE];
        let mut i: usize = 0;
        assert(all.take(0) =~= Seq::<int>::empty());
        while i < candidates.len()
            invariant
                i <= candidates@.len(),
                all == rules::scores(self@, candidates@, color),
                is_top_three(top@, crate::ranking::ranked(all.take(i as int), crate::ranking::by_value())),
            decreases candidates@.len() - i,
        {
            let score = self.score_move(candidates[i], color);
            let ghost before = top@;
            if score > top[2] {
                if score > top[1] {
                    top[2] = top[1];
                    if score > top[0] {
                        top[1] = top[0];
                        top[0] = score;
                    } else {
                        top[1] = score;
                    }
                } else {
                    top[2] = score;
                }
            }
            proof {
                rules::law_million_means_five(self@, candidates@[i as int], color);
                assert(all.take(i + 1).drop_last() =~= all.take(i as int));
                assert forall|k: int| 0 <= k < i implies #[trigger] all.take(i as int)[k] > SCORE_NONE by {
                    rules::law_million_means_five(self@, candidates@[k], color);
                }
                assert(all.take(i as int).push(score as int) =~= all.take(i + 1));
                lemma_top_falls(before, all.take(i as int));
                lemma_top_three(before, all.take(i as int), score as int, top@);
            }
            i = i + 1;
        }
        proof {
            assert(all.take(i as int) =~= all);
            let ranked = crate::ranking::ranked(all, crate::ranking::by_value());
            crate::ranking::lemma_ranked(all, crate::ranking::by_value());
            lemma_sum_of_three(top@, ranked);
            assert forall|k: int| 0 <= k < ranked.len() implies -536_870_912 <= #[trigger] ranked[k] <= 4_000_060 by {
                assert(ranked.contains(ranked[k]));
                let j = choose|j: int| 0 <= j < all.len() && all[j] == ranked[k];
                rules::law_million_means_five(self@, candidates@[j], color);
            }
        }
        let mut sum: i32 = 0;
        if top[0] > SCORE_NONE {
            sum = sum + top[0];
        }
        if top[1] > SCORE_NONE {
            sum = sum + top[1];
        }
        if top[2] > SCORE_NONE {
            sum = sum + top[2];
        }
        sum
    }

    /// What a look at the position shows the player of colour `color`.
    pub fn inspect(&self, color: Piece) -> (r: BoardInsights)
        ensures
            r.candidate_count == rules::candidates(self@).len(),
            r.self_winning_moves == rules::winning_moves(self@, color).len(),
            r.opponent_winning_moves == rules::winning_moves(self@, rules::other(color)).len(),
            r.best_self_score == rules::best_score(rules::scores(self@, rules::candidates(self@), color)),
            r.best_opponent_score == rules::best_score(
                rules::scores(self@, rules::candidates(self@), rules::other(color)),
            ),
    {
        let candidates = self.candidate_positions();
        let opponent = color.opponent();
        BoardInsights {
            candidate_count: candidates.len(),
            self_winning_moves: self.winning_moves(color).len(),
            opponent_winning_moves: self.winning_moves(opponent).len(),
            best_self_score: self.best_score(&candidates, color),
            best_opponent_score: self.best_score(&candidates, opponent),
        }
    }

    /// The greatest score that `color` has on `candidates`.
    fn best_score(&self, candidates: &Vec<Position>, color: Piece) -> (r: i32)
        ensures
            r == rules::best_score(rules::scores(self@, candidates@, color)),
    {
        let ghost all = rules::scores(self@, candidates@, color);
        let mut best: i32 = SCORE_UNPLAYABLE;
        let mut i: usize = 0;
        while i < candidates.len()
            invariant
                i <= candidates@.len(),
                all == rules::scores(self@, candidates@, color),
                best == rules::best_score(all.take(i as int)),
            decreases candidates@.len() - i,
        {
            let score = self.score_move(candidates[i], color);
            assert(all.take(i + 1).drop_last() =~= all.take(i as int));
            if score > best {
                best = score;
            }
            i = i + 1;
        }
        assert(all.take(i as int) =~= all);
        best
    }

    fn center_bonus(&self, position: Position) -> (r: i32)
        requires
            rules::holds(position),
        ensures
            r == rules::center_bonus(position.row as int, position.column as int),
    {
        let row_distance: usize = if position.row < CENTER {
            CENTER - position.row
        } else {
            position.row - CENTER
        };
        let column_distance: usize = if position.column < CENTER {
            CENTER - position.column
        } else {
            position.column - CENTER
        };
        60 - ((row_distance + column_distance) as i32) * 2
    }

    /// The value of a stone of colour `color` on `position` along one direction, and whether it
    /// makes five in a row there.
    pub fn score_direction(&self, position: Position, color: Piece, row_delta: isize, column_delta: isize) -> (r:
        PatternScore)
        requires
            rules::holds(position),
            -1 <= row_delta <= 1,
            -1 <= column_delta <= 1,
            row_delta != 0 || column_delta != 0,
        ensures
            r.score == rules::direction_score(
                self@,
                position.row as int,
                position.column as int,
                row_delta as int,
                column_delta as int,
                color,
            ),
            r.five_in_a_row == rules::direction_wins(
                self@,
                position.row as int,
                position.column as int,
                row_delta as int,
                column_delta as int,
                color,
            ),
    {
        let row = position.row as isize;
        let column = position.column as isize;
        let ahead = self.look_along(row, column, row_delta, column_delta, color);
        let behind = self.look_along(row, column, -row_delta, -column_delta, color);
        PatternScore::of_line(ahead, behind)
    }

    /// What the ray from (row, column) in one direction shows.
    fn look_along(&self, row: isize, column: isize, row_delta: isize, column_delta: isize, color: Piece) -> (r: Sight)
        requires
            rules::on_board(row as int, column as int),
            -1 <= row_delta <= 1,
            -1 <= column_delta <= 1,
            row_delta != 0 || column_delta != 0,
        ensures
            r@ == rules::ray(self@, row as int, column as int, row_delta as int, column_delta as int, color),
            r.direct <= 18,
            r.skip <= 18,
    {
        let (direct, end_row, end_column) = self.count_run(
            row + row_delta,
            column + column_delta,
            row_delta,
            column_delta,
            color,
        );
        let open = self.is_empty_cell(end_row, end_column);
        let skip: usize = if open {
            self.count_run(end_row + row_delta, end_column + column_delta, row_delta, column_delta, color).0
        } else {
            0
        };
        Sight { direct, open, skip }
    }

    /// The stones of colour `color` that follow one another from (row, column) on, and where they
    /// end.
    pub(crate) fn count_run(&self, row: isize, column: isize, row_delta: isize, column_delta: isize, color: Piece) -> (r: (
        usize,
        isize,
        isize,
    ))
        requires
            -1 <= row <= 18,
            -1 <= column <= 18,
            -1 <= row_delta <= 1,
            -1 <= column_delta <= 1,
            row_delta != 0 || column_delta != 0,
        ensures
            r.0 == rules::run(self@, row as int, column as int, row_delta as int, column_delta as int, color),
            (r.1 as int, r.2 as int) == rules::run_end(
                self@,
                row as int,
                column as int,
                row_delta as int,
                column_delta as int,
                color,
            ),
            r.0 <= 18,
            -1 <= r.1 <= 18,
            -1 <= r.2 <= 18,
    {
        let mut r: isize = row;
        let mut c: isize = column;
        let mut n: usize = 0;
        proof {
            rules::lemma_run(self@, row as int, column as int, row_delta as int, column_delta as int, color);
        }
        while self.is_cell_color(r, c, color)
            invariant
                -1 <= r <= 18,
                -1 <= c <= 18,
                -1 <= row_delta <= 1,
                -1 <= column_delta <= 1,
                row_delta != 0 || column_delta != 0,
                n + rules::run(self@, r as int, c as int, row_delta as int, column_delta as int, color) == rules::run(
                    self@,
                    row as int,
                    column as int,
                    row_delta as int,
                    column_delta as int,
                    color,
                ),
                rules::run_end(self@, r as int, c as int, row_delta as int, column_delta as int, color)
                    == rules::run_end(self@, row as int, column as int, row_delta as int, column_delta as int, color),
                rules::run(self@, row as int, column as int, row_delta as int, column_delta as int, color) <= 18,
            decreases rules::run(self@, r as int, c as int, row_delta as int, column_delta as int, color),
        {
            r = r + row_delta;
            c = c + column_delta;
            proof {
                rules::lemma_run(self@, r as int, c as int, row_delta as int, column_delta as int, color);
            }
            n = n + 1;
        }
        (n, r, c)
    }

    fn is_cell_color(&self, row: isize, column: isize, color: Piece) -> (r: bool)
        ensures
            r == rules::is_color(self@, row as int, column as int, color),
    {
        if row < 0 || column < 0 {
            return false;
        }
        match self.get(Position::new(row as usize, column as usize)) {
            Some(piece) => piece == color,
            None => false,
        }
    }

    fn is_empty_cell(&self, row: isize, column: isize) -> (r: bool)
        ensures
            r == rules::is_open(self@, row as int, column as int),
    {
        if row < 0 || column < 0 {
            return false;
        }
        let position = Position::new(row as usize, column as usize);
        Self::in_bounds(position) && self.is_empty_at(position)
    }
}

/// Below every score: half of the least `i32`.
const SCORE_NONE: i32 = -1_073_741_824;

/// `top` holds the first three of `ranked`, filled up with `SCORE_NONE`.
spec fn is_top_three(top: Seq<i32>, ranked: Seq<int>) -> bool {
    &&& top.len() == 3
    &&& forall|k: int|
        0 <= k < 3 ==> #[trigger] top[k] == (if k < ranked.len() {
            ranked[k]
        } else {
            SCORE_NONE as int
        })
}

/// The first three fall.
proof fn lemma_top_falls(top: Seq<i32>, scores: Seq<int>)
    requires
        is_top_three(top, crate::ranking::ranked(scores, crate::ranking::by_value())),
        forall|k: int| 0 <= k < scores.len() ==> #[trigger] scores[k] > SCORE_NONE,
    ensures
        top[0] >= top[1] >= top[2] >= SCORE_NONE,
{
    let key = crate::ranking::by_value();
    let ranked = crate::ranking::ranked(scores, key);
    crate::ranking::lemma_ranked(scores, key);
    assert forall|k: int| 0 <= k < ranked.len() implies #[trigger] ranked[k] > SCORE_NONE by {
        assert(ranked.contains(ranked[k]));
        let i = choose|i: int| 0 <= i < scores.len() && scores[i] == ranked[k];
        assert(scores[i] > SCORE_NONE);
    }
    if ranked.len() > 1 {
        assert(key(ranked[0]) >= key(ranked[1]));
    }
    if ranked.len() > 2 {
        assert(key(ranked[1]) >= key(ranked[2]));
    }
}

/// Keeping the first three up to date while one more score is ranked.
proof fn lemma_top_three(top: Seq<i32>, scores: Seq<int>, x: int, after: Seq<i32>)
    requires
        is_top_three(top, crate::ranking::ranked(scores, crate::ranking::by_value())),
        x > SCORE_NONE,
        forall|k: int| 0 <= k < scores.len() ==> #[trigger] scores[k] > SCORE_NONE,
        after.len() == 3,
        after[0] == if x > top[0] { x } else { top[0] as int },
        after[1] == if x > top[0] { top[0] as int } else if x > top[1] { x } else { top[1] as int },
        after[2] == if x > top[1] { top[1] as int } else if x > top[2] { x } else { top[2] as int },
    ensures
        is_top_three(after, crate::ranking::ranked(scores.push(x), crate::ranking::by_value())),
{
    let key = crate::ranking::by_value();
    let ranked = crate::ranking::ranked(scores, key);
    crate::ranking::lemma_ranked(scores, key);
    assert(scores.push(x).drop_last() =~= scores);
    let j = crate::ranking::lemma_insert_place(ranked, x, key);
    let next = crate::ranking::ranked(scores.push(x), key);
    assert(next =~= ranked.take(j).push(x) + ranked.skip(j));
    assert forall|k: int| 0 <= k < ranked.len() implies #[trigger] ranked[k] > SCORE_NONE by {
        assert(ranked.contains(ranked[k]));
        let i = choose|i: int| 0 <= i < scores.len() && scores[i] == ranked[k];
        assert(scores[i] > SCORE_NONE);
    }
    assert forall|k: int| 0 <= k < 3 implies #[trigger] after[k] == (if k < next.len() {
        next[k]
    } else {
        SCORE_NONE as int
    }) by {
        let t0 = top[0];
        let t1 = top[1];
        let t2 = top[2];
        if j > 0 {
            assert(key(ranked[0]) >= key(x));
        }
        if j > 1 {
            assert(key(ranked[1]) >= key(x));
        }
        if j > 2 {
            assert(key(ranked[2]) >= key(x));
        }
        if j <= 0 && 0 < ranked.len() {
            assert(key(ranked[0]) < key(x));
        }
        if j <= 1 && 1 < ranked.len() {
            assert(key(ranked[1]) < key(x));
        }
        if j <= 2 && 2 < ranked.len() {
            assert(key(ranked[2]) < key(x));
        }
    }
}

/// The sum of the first three, of which only those above `SCORE_NONE` count.
proof fn lemma_sum_of_three(top: Seq<i32>, ranked: Seq<int>)
    requires
        is_top_three(top, ranked),
    ensures
        ({
            let n = if ranked.len() < 3 {
                ranked.len() as int
            } else {
                3
            };
            rules::sum(ranked.take(n)) == (if n > 0 {
                ranked[0]
            } else {
                0
            }) + (if n > 1 {
                ranked[1]
            } else {
                0
            }) + (if n > 2 {
                ranked[2]
            } else {
                0
            })
        }),
{
    reveal_with_fuel(rules::sum, 4);
    if ranked.len() > 0 {
        assert(ranked.take(1).drop_last() =~= ranked.take(0));
    }
    if ranked.len() > 1 {
        assert(ranked.take(2).drop_last() =~= ranked.take(1));
    }
    if ranked.len() > 2 {
        assert(ranked.take(3).drop_last() =~= ranked.take(2));
    }
}

/// What a ray shows.
struct Sight {
    direct: usize,
    open: bool,
    skip: usize,
}

impl View for Sight {
    type V = rules::Ray;

    closed spec fn view(&self) -> rules::Ray {
        rules::Ray { direct: self.direct as int, open: self.open, skip: self.skip as int }
    }
}

/// What a stone makes along one direction.
#[derive(Copy, Clone, Debug, PartialEq, Eq, Structural)]
pub struct PatternScore {
    pub score: i32,
    pub five_in_a_row: bool,
}

impl PatternScore {
    /// The value of the line that a stone completes between two opposite rays.
    fn of_line(ahead: Sight, behind: Sight) -> (r: PatternScore)
        requires
            ahead.direct <= 18,
            ahead.skip <= 18,
            behind.direct <= 18,
            behind.skip <= 18,
        ensures
            r.score == rules::line_score(ahead@, behind@),
            r.five_in_a_row == (rules::line_total(ahead@, behind@) >= 5),
    {
        let total: usize = 1 + ahead.direct + behind.direct;
        let open_ends: u8 = (if ahead.open {
            1u8
        } else {
            0u8
        }) + (if behind.open {
            1u8
        } else {
            0u8
        });
        // Filling one gap beside the line makes five; the two gaps count together where the line
        // lies between them.
        let gap_win_threat = (ahead.skip > 0 && total + ahead.skip >= 4) || (behind.skip > 0 && total + behind.skip
            >= 4) || (ahead.skip > 0 && behind.skip > 0 && total + ahead.skip + behind.skip >= 5);
        if total >= 5 {
            return PatternScore { score: SCORE_FIVE, five_in_a_row: true };
        }
        if total == 4 && open_ends == 2 {
            return PatternScore { score: SCORE_OPEN_FOUR, five_in_a_row: false };
        }
        if total == 4 || gap_win_threat {
            return PatternScore { score: SCORE_FOUR, five_in_a_row: false };
        }
        let gap_three = open_ends >= 1 && ((ahead.skip > 0 && total + ahead.skip == 3) || (behind.skip > 0 && total
            + behind.skip == 3));
        let score: i32 = if total == 3 && open_ends == 2 {
            SCORE_OPEN_THREE
        } else if total == 3 && open_ends == 1 {
            1_500
        } else if total == 2 && open_ends == 2 {
            if gap_three {
                1_200
            } else {
                250
            }
        } else if total == 2 && open_ends == 1 {
            if gap_three {
                400
            } else {
                40
            }
        } else {
            total as i32 * 5
        };
        PatternScore { score, five_in_a_row: false }
    }
}

} // verus!
