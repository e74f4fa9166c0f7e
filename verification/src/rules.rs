//! The mathematical model of a position and of the rules that are read off it.
//!
//! A position is the sequence of its cells, row by row. Everything here is ghost: the contracts
//! of the executable modules speak of these functions.
use vstd::prelude::*;

use crate::board::{Piece, Position};

verus! {

/// The cells of the board, row by row: cell (row, column) is at index `18 * row + column`.
pub type Cells = Seq<Option<Piece>>;

/// `s` has one entry for each cell.
pub open spec fn is_cells(s: Cells) -> bool {
    s.len() == 324
}

/// The board without stones.
pub open spec fn empty_cells() -> Cells {
    Seq::new(324, |n: int| None::<Piece>)
}

pub open spec fn on_board(r: int, c: int) -> bool {
    0 <= r < 18 && 0 <= c < 18
}

/// What lies at row `r`, column `c`; nothing lies off the board.
pub open spec fn at(s: Cells, r: int, c: int) -> Option<Piece> {
    if on_board(r, c) {
        s[18 * r + c]
    } else {
        None
    }
}

/// The index of a position among the cells.
pub open spec fn index(p: Position) -> int {
    18 * p.row + p.column
}

/// The position of the cell at index `n`.
pub open spec fn position(n: int) -> Position {
    Position { row: (n / 18) as usize, column: (n % 18) as usize }
}

pub open spec fn holds(p: Position) -> bool {
    on_board(p.row as int, p.column as int)
}

/// `p` is a cell of the board without a stone.
pub open spec fn is_free(s: Cells, p: Position) -> bool {
    holds(p) && s[index(p)] is None
}

/// The position after a stone of colour `color` is put on `p`.
pub open spec fn put(s: Cells, p: Position, color: Piece) -> Cells {
    s.update(index(p), Some(color))
}

/// The position after what lies on `p` is taken away.
pub open spec fn take(s: Cells, p: Position) -> Cells {
    s.update(index(p), None)
}

pub open spec fn other(color: Piece) -> Piece {
    match color {
        Piece::Black => Piece::White,
        Piece::White => Piece::Black,
    }
}

/// The number of stones among the first `n` cells.
pub open spec fn stones_upto(s: Cells, n: int) -> int
    decreases n,
{
    if n <= 0 {
        0
    } else {
        stones_upto(s, n - 1) + if s[n - 1] is Some {
            1int
        } else {
            0
        }
    }
}

/// The number of stones on the board.
pub open spec fn stones(s: Cells) -> int {
    stones_upto(s, 324)
}

pub open spec fn color_index(color: Piece) -> int {
    match color {
        Piece::Black => 0,
        Piece::White => 1,
    }
}

/// The key of a stone of colour `color` on `p`.
pub open spec fn stone_key(p: Position, color: Piece) -> u64 {
    crate::zobrist::zobrist_key(p.row as int, p.column as int, color_index(color))
}

/// The key of what lies at index `n`: zero for an empty cell.
pub open spec fn cell_key(s: Cells, n: int) -> u64 {
    match s[n] {
        Some(color) => stone_key(position(n), color),
        None => 0,
    }
}

/// The exclusive or of the keys of the first `n` cells.
pub open spec fn hash_upto(s: Cells, n: int) -> u64
    decreases n,
{
    if n <= 0 {
        0
    } else {
        hash_upto(s, n - 1) ^ cell_key(s, n - 1)
    }
}

/// The hash of a position: the exclusive or of the keys of its stones.
pub open spec fn hash_of(s: Cells) -> u64 {
    hash_upto(s, 324)
}

/// A stone of colour `color` lies at row `r`, column `c`.
pub open spec fn is_color(s: Cells, r: int, c: int, color: Piece) -> bool {
    at(s, r, c) == Some(color)
}

/// Row `r`, column `c` is an empty cell of the board.
pub open spec fn is_open(s: Cells, r: int, c: int) -> bool {
    on_board(r, c) && at(s, r, c) is None
}

/// An upper bound on the steps that lead from (r, c) off the board in direction (dr, dc).
pub open spec fn steps_left(r: int, c: int, dr: int, dc: int) -> nat {
    let left = if dr > 0 {
        18 - r
    } else if dr < 0 {
        r + 1
    } else if dc > 0 {
        18 - c
    } else {
        c + 1
    };
    if left > 0 {
        left as nat
    } else {
        0
    }
}

/// The number of stones of colour `color` that follow one another from (r, c) on in direction
/// (dr, dc).
pub open spec fn run(s: Cells, r: int, c: int, dr: int, dc: int, color: Piece) -> int
    decreases steps_left(r, c, dr, dc),
{
    if is_color(s, r, c, color) && (dr != 0 || dc != 0) {
        1 + run(s, r + dr, c + dc, dr, dc, color)
    } else {
        0
    }
}

/// The first place from (r, c) on in direction (dr, dc) without a stone of colour `color`.
pub open spec fn run_end(s: Cells, r: int, c: int, dr: int, dc: int, color: Piece) -> (int, int)
    decreases steps_left(r, c, dr, dc),
{
    if is_color(s, r, c, color) && (dr != 0 || dc != 0) {
        run_end(s, r + dr, c + dc, dr, dc, color)
    } else {
        (r, c)
    }
}

/// What one ray from a cell shows: the stones that follow directly, whether an empty cell ends
/// them, and how many stones follow behind that one empty cell.
pub struct Ray {
    pub direct: int,
    pub open: bool,
    pub skip: int,
}

/// The ray from (r, c), which itself is left out, in direction (dr, dc).
pub open spec fn ray(s: Cells, r: int, c: int, dr: int, dc: int, color: Piece) -> Ray {
    let direct = run(s, r + dr, c + dc, dr, dc, color);
    let end = run_end(s, r + dr, c + dc, dr, dc, color);
    let open = is_open(s, end.0, end.1);
    Ray {
        direct,
        open,
        skip: if open {
            run(s, end.0 + dr, end.1 + dc, dr, dc, color)
        } else {
            0
        },
    }
}

/// The length of the line that a stone completes between two opposite rays.
pub open spec fn line_total(a: Ray, b: Ray) -> int {
    1 + a.direct + b.direct
}

pub open spec fn open_ends(a: Ray, b: Ray) -> int {
    (if a.open {
        1int
    } else {
        0
    }) + (if b.open {
        1int
    } else {
        0
    })
}

/// Filling one gap beside the line makes five.
pub open spec fn gap_win_threat(a: Ray, b: Ray) -> bool {
    let total = line_total(a, b);
    ||| a.skip > 0 && total + a.skip >= 4
    ||| b.skip > 0 && total + b.skip >= 4
    ||| a.skip > 0 && b.skip > 0 && total + a.skip + b.skip >= 5
}

/// Filling one gap beside the line makes an extendable three.
pub open spec fn gap_three(a: Ray, b: Ray) -> bool {
    let total = line_total(a, b);
    &&& open_ends(a, b) >= 1
    &&& (a.skip > 0 && total + a.skip == 3) || (b.skip > 0 && total + b.skip == 3)
}

/// The value of the line that a stone completes between two opposite rays.
pub open spec fn line_score(a: Ray, b: Ray) -> int {
    let total = line_total(a, b);
    let ends = open_ends(a, b);
    if total >= 5 {
        1_000_000
    } else if total == 4 && ends == 2 {
        100_000
    } else if total == 4 || gap_win_threat(a, b) {
        25_000
    } else if total == 3 && ends == 2 {
        8_000
    } else if total == 3 && ends == 1 {
        1_500
    } else if total == 2 && ends == 2 {
        if gap_three(a, b) {
            1_200
        } else {
            250
        }
    } else if total == 2 && ends == 1 {
        if gap_three(a, b) {
            400
        } else {
            40
        }
    } else {
        5 * total
    }
}

/// The value of a stone of colour `color` on (r, c) along direction (dr, dc).
pub open spec fn direction_score(s: Cells, r: int, c: int, dr: int, dc: int, color: Piece) -> int {
    line_score(ray(s, r, c, dr, dc, color), ray(s, r, c, -dr, -dc, color))
}

/// A stone of colour `color` on (r, c) makes five or more in direction (dr, dc).
pub open spec fn direction_wins(s: Cells, r: int, c: int, dr: int, dc: int, color: Piece) -> bool {
    1 + run(s, r + dr, c + dc, dr, dc, color) + run(s, r - dr, c - dc, -dr, -dc, color) >= 5
}

/// The four directions of a line: down, right, and the two diagonals.
pub open spec fn direction(k: int) -> (int, int) {
    if k == 0 {
        (1, 0)
    } else if k == 1 {
        (0, 1)
    } else if k == 2 {
        (1, 1)
    } else {
        (1, -1)
    }
}

/// A stone of colour `color` on the free cell `p` makes five in a row.
pub open spec fn would_win(s: Cells, p: Position, color: Piece) -> bool {
    &&& is_free(s, p)
    &&& exists|k: int|
        0 <= k < 4 && #[trigger] direction_wins(
            s,
            p.row as int,
            p.column as int,
            direction(k).0,
            direction(k).1,
            color,
        )
}

pub open spec fn distance(a: int, b: int) -> int {
    if a <= b {
        b - a
    } else {
        a - b
    }
}

/// Cells near the centre (9, 9) are worth a little more.
pub open spec fn center_bonus(r: int, c: int) -> int {
    60 - 2 * (distance(r, 9) + distance(c, 9))
}

/// The score of a cell that no stone can be put on.
pub open spec fn no_score() -> int {
    -536_870_912
}

/// The value of a stone of colour `color` on `p`.
pub open spec fn score(s: Cells, p: Position, color: Piece) -> int {
    if is_free(s, p) {
        let r = p.row as int;
        let c = p.column as int;
        center_bonus(r, c) + direction_score(s, r, c, 1, 0, color) + direction_score(s, r, c, 0, 1, color)
            + direction_score(s, r, c, 1, 1, color) + direction_score(s, r, c, 1, -1, color)
    } else {
        no_score()
    }
}

/// The cells at indices `n` and `m` are at most two steps apart, counted in rows and in columns.
#[verifier::opaque]
pub open spec fn near(n: int, m: int) -> bool {
    distance(n / 18, m / 18) <= 2 && distance(n % 18, m % 18) <= 2
}

/// `found`, followed by those of the first `m` cells, row by row, that are free, near the stone at
/// index `n` and not yet found.
pub open spec fn reach(s: Cells, found: Seq<Position>, n: int, m: int) -> Seq<Position>
    decreases m,
{
    if m <= 0 {
        found
    } else {
        let before = reach(s, found, n, m - 1);
        if near(n, m - 1) && s[m - 1] is None && !before.contains(position(m - 1)) {
            before.push(position(m - 1))
        } else {
            before
        }
    }
}

/// The free cells near the stones among the first `n` cells, in the order in which a row by row
/// walk over the stones meets them.
pub open spec fn near_stones(s: Cells, n: int) -> Seq<Position>
    decreases n,
{
    if n <= 0 {
        Seq::empty()
    } else if s[n - 1] is Some {
        reach(s, near_stones(s, n - 1), n - 1, 324)
    } else {
        near_stones(s, n - 1)
    }
}

/// The cells worth looking at: the centre on the empty board, else the free cells near a stone.
pub open spec fn candidates(s: Cells) -> Seq<Position> {
    if stones(s) == 0 {
        seq![Position { row: 9, column: 9 }]
    } else {
        near_stones(s, 324)
    }
}

/// The cells on which a stone of colour `color` makes five in a row.
pub open spec fn winning(s: Cells, color: Piece) -> spec_fn(Position) -> bool {
    |p: Position| would_win(s, p, color)
}

/// The candidates that make five in a row.
pub open spec fn winning_moves(s: Cells, color: Piece) -> Seq<Position> {
    candidates(s).filter(winning(s, color))
}

pub open spec fn first_winning_move(s: Cells, color: Piece) -> Option<Position> {
    if winning_moves(s, color).len() > 0 {
        Some(winning_moves(s, color)[0])
    } else {
        None
    }
}

pub open spec fn has_winning_move(s: Cells, color: Piece) -> bool {
    winning_moves(s, color).len() > 0
}

/// The greatest of `scores`, which are none of them below the score of an unplayable cell.
pub open spec fn best_score(scores: Seq<int>) -> int
    decreases scores.len(),
{
    if scores.len() == 0 {
        no_score()
    } else {
        let rest = best_score(scores.drop_last());
        if scores.last() > rest {
            scores.last()
        } else {
            rest
        }
    }
}

/// The scores of the cells `ps` for colour `color`.
pub open spec fn scores(s: Cells, ps: Seq<Position>, color: Piece) -> Seq<int> {
    Seq::new(ps.len(), |i: int| score(s, ps[i], color))
}

pub open spec fn sum(values: Seq<int>) -> int
    decreases values.len(),
{
    if values.len() == 0 {
        0
    } else {
        sum(values.drop_last()) + values.last()
    }
}

/// The sum of the three greatest scores that colour `color` has on the cells `ps`.
pub open spec fn evaluation(s: Cells, ps: Seq<Position>, color: Piece) -> int {
    let ranked = crate::ranking::ranked(scores(s, ps, color), crate::ranking::by_value());
    sum(ranked.take(if ranked.len() < 3 {
        ranked.len() as int
    } else {
        3
    }))
}

/// Changing one cell changes the number of stones by what that cell gains or loses.
pub proof fn lemma_stones_update(s: Cells, k: int, v: Option<Piece>, n: int)
    requires
        is_cells(s),
        0 <= k < 324,
        0 <= n <= 324,
    ensures
        stones_upto(s.update(k, v), n) == stones_upto(s, n) + if k < n {
            (if v is Some {
                1int
            } else {
                0
            }) - (if s[k] is Some {
                1int
            } else {
                0
            })
        } else {
            0
        },
    decreases n,
{
    if n > 0 {
        lemma_stones_update(s, k, v, n - 1);
    }
}

/// There are at most as many stones as cells, and none exactly where every cell is empty.
pub proof fn lemma_stones_bounds(s: Cells, n: int)
    requires
        is_cells(s),
        0 <= n <= 324,
    ensures
        0 <= stones_upto(s, n) <= n,
        stones_upto(s, n) == 0 <==> forall|k: int| 0 <= k < n ==> #[trigger] s[k] is None,
        stones_upto(s, n) == n <==> forall|k: int| 0 <= k < n ==> #[trigger] s[k] is Some,
    decreases n,
{
    if n > 0 {
        lemma_stones_bounds(s, n - 1);
        assert(stones_upto(s, n) == 0 ==> s[n - 1] is None);
        assert(stones_upto(s, n) == n ==> s[n - 1] is Some);
        if forall|k: int| 0 <= k < n ==> #[trigger] s[k] is None {
            assert(s[n - 1] is None);
        }
        if forall|k: int| 0 <= k < n ==> #[trigger] s[k] is Some {
            assert(s[n - 1] is Some);
        }
    }
}

/// Changing one cell replaces its key in the hash.
pub proof fn lemma_hash_update(s: Cells, k: int, v: Option<Piece>, n: int)
    requires
        is_cells(s),
        0 <= k < 324,
        0 <= n <= 324,
    ensures
        k < n ==> hash_upto(s.update(k, v), n) == hash_upto(s, n) ^ cell_key(s, k) ^ cell_key(s.update(k, v), k),
        k >= n ==> hash_upto(s.update(k, v), n) == hash_upto(s, n),
    decreases n,
{
    let t = s.update(k, v);
    if n > 0 {
        lemma_hash_update(s, k, v, n - 1);
        let a = hash_upto(s, n - 1);
        let b = cell_key(s, k);
        let c = cell_key(t, k);
        let d = cell_key(s, n - 1);
        assert((a ^ b ^ c) ^ d == (a ^ d) ^ b ^ c && a ^ c == (a ^ b) ^ b ^ c) by (bit_vector);
        if k != n - 1 {
            assert(cell_key(t, n - 1) == d);
        }
    }
}

/// The empty board hashes to zero.
pub proof fn lemma_empty_hash(n: int)
    requires
        0 <= n <= 324,
    ensures
        hash_upto(empty_cells(), n) == 0,
    decreases n,
{
    if n > 0 {
        lemma_empty_hash(n - 1);
        assert(0u64 ^ 0u64 == 0u64) by (bit_vector);
    }
}

/// A stone put on a free cell enters the hash with its key.
pub proof fn lemma_hash_place(s: Cells, p: Position, color: Piece)
    requires
        is_cells(s),
        is_free(s, p),
    ensures
        hash_of(put(s, p, color)) == hash_of(s) ^ stone_key(p, color),
{
    let k = index(p);
    lemma_hash_update(s, k, Some(color), 324);
    assert(position(k) == p);
    let a = hash_of(s);
    assert(a ^ 0u64 == a) by (bit_vector);
}

/// A stone taken away leaves the hash with its key.
pub proof fn lemma_hash_take(s: Cells, p: Position)
    requires
        is_cells(s),
        holds(p),
    ensures
        hash_of(take(s, p)) == (match s[index(p)] {
            Some(color) => hash_of(s) ^ stone_key(p, color),
            None => hash_of(s),
        }),
{
    let k = index(p);
    lemma_hash_update(s, k, None, 324);
    assert(position(k) == p);
    let a = hash_of(s);
    let b = cell_key(s, k);
    assert(a ^ b ^ 0u64 == a ^ b && a ^ 0u64 == a) by (bit_vector);
}

/// A stone that is put on a free cell and taken away again leaves the cells, and the hash, as they
/// were.
pub proof fn law_undo_reverts_place(s: Cells, hash: u64, p: Position, color: Piece)
    requires
        is_cells(s),
        is_free(s, p),
    ensures
        take(put(s, p, color), p) == s,
        (hash ^ stone_key(p, color)) ^ stone_key(p, color) == hash,
{
    assert(take(put(s, p, color), p) =~= s);
    let k = stone_key(p, color);
    assert((hash ^ k) ^ k == hash) by (bit_vector);
}

/// The hash does not depend on the order in which two stones are put down.
pub proof fn law_hash_ignores_order(s: Cells, p: Position, a: Piece, q: Position, b: Piece)
    requires
        is_cells(s),
        is_free(s, p),
        is_free(s, q),
        p != q,
    ensures
        put(put(s, p, a), q, b) == put(put(s, q, b), p, a),
        hash_of(put(put(s, p, a), q, b)) == hash_of(put(put(s, q, b), p, a)),
{
    assert(put(put(s, p, a), q, b) =~= put(put(s, q, b), p, a));
}

/// The length of a run, and where it ends.
pub proof fn lemma_run(s: Cells, r: int, c: int, dr: int, dc: int, color: Piece)
    requires
        -1 <= dr <= 1,
        -1 <= dc <= 1,
        dr != 0 || dc != 0,
        -1 <= r <= 18,
        -1 <= c <= 18,
    ensures
        0 <= run(s, r, c, dr, dc, color) <= steps_left(r, c, dr, dc),
        0 <= run(s, r, c, dr, dc, color) <= 18,
        run_end(s, r, c, dr, dc, color).0 == r + dr * run(s, r, c, dr, dc, color),
        run_end(s, r, c, dr, dc, color).1 == c + dc * run(s, r, c, dr, dc, color),
        -1 <= run_end(s, r, c, dr, dc, color).0 <= 18,
        -1 <= run_end(s, r, c, dr, dc, color).1 <= 18,
    decreases steps_left(r, c, dr, dc),
{
    if is_color(s, r, c, color) {
        lemma_run(s, r + dr, c + dc, dr, dc, color);
        let n = run(s, r + dr, c + dc, dr, dc, color);
        assert(r + dr + dr * n == r + dr * (n + 1)) by (nonlinear_arith);
        assert(c + dc + dc * n == c + dc * (n + 1)) by (nonlinear_arith);
    }
}

/// What a ray can show.
pub proof fn lemma_ray(s: Cells, r: int, c: int, dr: int, dc: int, color: Piece)
    requires
        -1 <= dr <= 1,
        -1 <= dc <= 1,
        dr != 0 || dc != 0,
        on_board(r, c),
    ensures
        0 <= ray(s, r, c, dr, dc, color).direct <= 18,
        0 <= ray(s, r, c, dr, dc, color).skip <= 18,
{
    lemma_run(s, r + dr, c + dc, dr, dc, color);
    let end = run_end(s, r + dr, c + dc, dr, dc, color);
    if is_open(s, end.0, end.1) {
        lemma_run(s, end.0 + dr, end.1 + dc, dr, dc, color);
    }
}

/// The value of a line lies between 5 and the value of five in a row, which it has exactly where
/// five stones stand together.
pub proof fn lemma_direction_score(s: Cells, r: int, c: int, dr: int, dc: int, color: Piece)
    requires
        -1 <= dr <= 1,
        -1 <= dc <= 1,
        dr != 0 || dc != 0,
        on_board(r, c),
    ensures
        5 <= direction_score(s, r, c, dr, dc, color) <= 1_000_000,
        direction_score(s, r, c, dr, dc, color) == 1_000_000 <==> direction_wins(s, r, c, dr, dc, color),
        !direction_wins(s, r, c, dr, dc, color) ==> direction_score(s, r, c, dr, dc, color) <= 100_000,
{
    lemma_ray(s, r, c, dr, dc, color);
    lemma_ray(s, r, c, -dr, -dc, color);
}

/// Cells that are not near the stone add nothing.
pub proof fn lemma_reach_skip(s: Cells, found: Seq<Position>, n: int, a: int, b: int)
    requires
        0 <= a <= b <= 324,
        forall|k: int| a <= k < b ==> !#[trigger] near(n, k),
    ensures
        reach(s, found, n, b) == reach(s, found, n, a),
    decreases b - a,
{
    if a < b {
        assert(!near(n, b - 1));
        lemma_reach_skip(s, found, n, a, b - 1);
    }
}

/// Rows and columns of neighbouring cells.
pub proof fn lemma_cell(row: int, column: int, r: int, c: int)
    requires
        on_board(row, column),
        on_board(r, c),
    ensures
        near(18 * row + column, 18 * r + c) <==> distance(row, r) <= 2 && distance(column, c) <= 2,
        position(18 * r + c) == (Position { row: r as usize, column: c as usize }),
{
    reveal(near);
}

/// The index of a position, and the position at an index, undo one another.
pub proof fn lemma_index(n: int)
    requires
        0 <= n < 324,
    ensures
        holds(position(n)),
        index(position(n)) == n,
{
}

/// Rows that are too far off add nothing.
pub proof fn lemma_reach_rows(s: Cells, found: Seq<Position>, row: int, column: int, a: int, b: int)
    requires
        on_board(row, column),
        0 <= a <= b <= 18,
        a == b || b <= row - 2 || a > row + 2,
    ensures
        reach(s, found, 18 * row + column, 18 * b) == reach(s, found, 18 * row + column, 18 * a),
{
    reveal(near);
    lemma_reach_skip(s, found, 18 * row + column, 18 * a, 18 * b);
}

/// Columns that are too far off add nothing.
pub proof fn lemma_reach_columns(s: Cells, found: Seq<Position>, row: int, column: int, r: int, a: int, b: int)
    requires
        on_board(row, column),
        0 <= r < 18,
        0 <= a <= b <= 18,
        a == b || b <= column - 2 || a > column + 2,
    ensures
        reach(s, found, 18 * row + column, 18 * r + b) == reach(s, found, 18 * row + column, 18 * r + a),
{
    reveal(near);
    assert forall|k: int| 18 * r + a <= k < 18 * r + b implies !#[trigger] near(18 * row + column, k) by {
        assert(k % 18 == k - 18 * r);
    }
    lemma_reach_skip(s, found, 18 * row + column, 18 * r + a, 18 * r + b);
}

/// `seen` marks exactly the cells of `found`.
pub open spec fn marks(seen: Seq<bool>, found: Seq<Position>) -> bool {
    forall|k: int| 0 <= k < 324 ==> (#[trigger] seen[k] <==> found.contains(position(k)))
}

/// Marking one more cell.
pub proof fn lemma_marks_push(seen: Seq<bool>, found: Seq<Position>, n: int)
    requires
        seen.len() == 324,
        marks(seen, found),
        0 <= n < 324,
    ensures
        marks(seen.update(n, true), found.push(position(n))),
{
    let after = found.push(position(n));
    assert forall|k: int| 0 <= k < 324 implies (#[trigger] seen.update(n, true)[k] <==> after.contains(
        position(k),
    )) by {
        lemma_index(k);
        lemma_index(n);
        if k == n {
            assert(after[found.len() as int] == position(n));
        } else {
            if found.contains(position(k)) {
                let j = choose|j: int| 0 <= j < found.len() && found[j] == position(k);
                assert(after[j] == position(k));
            }
            assert(seen[k] <==> found.contains(position(k)));
        }
    }
}

/// One more element is filtered.
pub proof fn lemma_filter_step<T>(s: Seq<T>, pred: spec_fn(T) -> bool, i: int)
    requires
        0 <= i < s.len(),
    ensures
        s.take(i + 1).filter(pred) == (if pred(s[i]) {
            s.take(i).filter(pred).push(s[i])
        } else {
            s.take(i).filter(pred)
        }),
{
    reveal(Seq::filter);
    assert(s.take(i + 1).drop_last() =~= s.take(i));
}

/// What a filter keeps.
pub proof fn lemma_filter_members<T>(s: Seq<T>, pred: spec_fn(T) -> bool)
    ensures
        forall|i: int|
            0 <= i < s.filter(pred).len() ==> pred(#[trigger] s.filter(pred)[i]) && s.contains(s.filter(pred)[i]),
        forall|x: T| #[trigger] s.filter(pred).contains(x) <==> s.contains(x) && pred(x),
    decreases s.len(),
{
    reveal(Seq::filter);
    if s.len() > 0 {
        let t = s.drop_last();
        lemma_filter_members(t, pred);
        assert forall|x: T| #[trigger] s.filter(pred).contains(x) <==> s.contains(x) && pred(x) by {
            assert(t.filter(pred).contains(x) <==> t.contains(x) && pred(x));
            if s.contains(x) {
                let i = choose|i: int| 0 <= i < s.len() && s[i] == x;
                if i < t.len() {
                    assert(t[i] == x);
                }
            }
            if t.contains(x) {
                let i = choose|i: int| 0 <= i < t.len() && t[i] == x;
                assert(s[i] == x);
            }
            if pred(s.last()) {
                assert(s.filter(pred) == t.filter(pred).push(s.last()));
                assert(s.filter(pred)[t.filter(pred).len() as int] == s.last());
                if t.filter(pred).contains(x) {
                    let i = choose|i: int| 0 <= i < t.filter(pred).len() && t.filter(pred)[i] == x;
                    assert(s.filter(pred)[i] == x);
                }
            }
            assert(s[s.len() - 1] == s.last());
        }
        assert forall|i: int| 0 <= i < s.filter(pred).len() implies pred(#[trigger] s.filter(pred)[i]) && s.contains(
            s.filter(pred)[i],
        ) by {
            assert(s.filter(pred).contains(s.filter(pred)[i]));
        }
    }
}

/// Filtering a prefix gives a prefix of the filtered sequence.
pub proof fn lemma_filter_prefix<T>(s: Seq<T>, pred: spec_fn(T) -> bool, i: int)
    requires
        0 <= i <= s.len(),
    ensures
        s.take(i).filter(pred).len() <= s.filter(pred).len(),
        forall|k: int|
            0 <= k < s.take(i).filter(pred).len() ==> #[trigger] s.filter(pred)[k] == s.take(i).filter(pred)[k],
    decreases s.len() - i,
{
    if i < s.len() {
        lemma_filter_prefix(s, pred, i + 1);
        lemma_filter_step(s, pred, i);
        assert forall|k: int| 0 <= k < s.take(i).filter(pred).len() implies #[trigger] s.filter(pred)[k] == s.take(
            i,
        ).filter(pred)[k] by {
            assert(s.take(i + 1).filter(pred)[k] == s.take(i).filter(pred)[k]);
        }
    } else {
        assert(s.take(i) =~= s);
    }
}

/// A free cell scores at least 44 and at most 4000060, and a million or more exactly where a stone
/// on it makes five in a row.
pub proof fn law_million_means_five(s: Cells, p: Position, color: Piece)
    ensures
        is_free(s, p) ==> 44 <= score(s, p, color) <= 4_000_060,
        score(s, p, color) >= 1_000_000 <==> would_win(s, p, color),
{
    if is_free(s, p) {
        let r = p.row as int;
        let c = p.column as int;
        lemma_direction_score(s, r, c, 1, 0, color);
        lemma_direction_score(s, r, c, 0, 1, color);
        lemma_direction_score(s, r, c, 1, 1, color);
        lemma_direction_score(s, r, c, 1, -1, color);
        assert(direction(0) == (1int, 0int) && direction(1) == (0int, 1int) && direction(2) == (1int, 1int)
            && direction(3) == (1int, -1int));
        if direction_wins(s, r, c, 1, 0, color) {
            assert(direction_wins(s, r, c, direction(0).0, direction(0).1, color));
        }
        if direction_wins(s, r, c, 0, 1, color) {
            assert(direction_wins(s, r, c, direction(1).0, direction(1).1, color));
        }
        if direction_wins(s, r, c, 1, 1, color) {
            assert(direction_wins(s, r, c, direction(2).0, direction(2).1, color));
        }
        if direction_wins(s, r, c, 1, -1, color) {
            assert(direction_wins(s, r, c, direction(3).0, direction(3).1, color));
        }
    }
}

} // verus!
