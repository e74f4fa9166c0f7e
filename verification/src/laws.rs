//! What holds of every position.
use vstd::prelude::*;

use crate::board::{Piece, Position};
use crate::rules;

verus! {

/// `p` and `q` are at most two rows and two columns apart.
pub open spec fn close(p: Position, q: Position) -> bool {
    rules::distance(p.row as int, q.row as int) <= 2 && rules::distance(p.column as int, q.column as int) <= 2
}

/// A stone lies on `q`.
pub open spec fn is_stone(s: rules::Cells, q: Position) -> bool {
    rules::holds(q) && s[rules::index(q)] is Some
}

proof fn lemma_near_is_close(n: int, p: Position)
    requires
        0 <= n < 324,
        rules::holds(p),
    ensures
        rules::near(n, rules::index(p)) <==> close(p, rules::position(n)),
{
    rules::lemma_index(n);
    let q = rules::position(n);
    rules::lemma_cell(q.row as int, q.column as int, p.row as int, p.column as int);
}

proof fn lemma_reach(s: rules::Cells, found: Seq<Position>, n: int, m: int)
    requires
        rules::is_cells(s),
        0 <= n < 324,
        0 <= m <= 324,
        found.no_duplicates(),
        forall|i: int| 0 <= i < found.len() ==> rules::holds(#[trigger] found[i]),
    ensures
        rules::reach(s, found, n, m).no_duplicates(),
        forall|i: int|
            0 <= i < rules::reach(s, found, n, m).len() ==> rules::holds(#[trigger] rules::reach(s, found, n, m)[i]),
        forall|p: Position| #[trigger]
            rules::reach(s, found, n, m).contains(p) <==> found.contains(p) || (rules::is_free(s, p) && rules::index(p)
                < m && rules::near(n, rules::index(p))),
    decreases m,
{
    if m > 0 {
        lemma_reach(s, found, n, m - 1);
        let before = rules::reach(s, found, n, m - 1);
        let after = rules::reach(s, found, n, m);
        let q = rules::position(m - 1);
        rules::lemma_index(m - 1);
        assert forall|p: Position| #[trigger] after.contains(p) <==> found.contains(p) || (rules::is_free(s, p)
            && rules::index(p) < m && rules::near(n, rules::index(p))) by {
            assert(before.contains(p) <==> found.contains(p) || (rules::is_free(s, p) && rules::index(p) < m - 1
                && rules::near(n, rules::index(p))));
            if rules::holds(p) && rules::index(p) == m - 1 {
                assert(p == q);
            }
            if after.len() > before.len() {
                assert(after == before.push(q));
                assert(after[before.len() as int] == q);
                if before.contains(p) {
                    let j = choose|j: int| 0 <= j < before.len() && before[j] == p;
                    assert(after[j] == p);
                }
            }
        }
    }
}

proof fn lemma_near_stones(s: rules::Cells, n: int)
    requires
        rules::is_cells(s),
        0 <= n <= 324,
    ensures
        rules::near_stones(s, n).no_duplicates(),
        forall|i: int|
            0 <= i < rules::near_stones(s, n).len() ==> rules::holds(#[trigger] rules::near_stones(s, n)[i]),
        forall|p: Position| #[trigger]
            rules::near_stones(s, n).contains(p) <==> rules::is_free(s, p) && exists|k: int|
                0 <= k < n && (#[trigger] s[k]) is Some && rules::near(k, rules::index(p)),
    decreases n,
{
    if n > 0 {
        lemma_near_stones(s, n - 1);
        let before = rules::near_stones(s, n - 1);
        let after = rules::near_stones(s, n);
        if s[n - 1] is Some {
            lemma_reach(s, before, n - 1, 324);
        }
        assert forall|p: Position| #[trigger] after.contains(p) <==> rules::is_free(s, p) && exists|k: int|
            0 <= k < n && (#[trigger] s[k]) is Some && rules::near(k, rules::index(p)) by {
            assert(before.contains(p) <==> rules::is_free(s, p) && exists|k: int|
                0 <= k < n - 1 && (#[trigger] s[k]) is Some && rules::near(k, rules::index(p)));
            if rules::is_free(s, p) && s[n - 1] is Some && rules::near(n - 1, rules::index(p)) {
                assert(s[n - 1] is Some);
            }
        }
    }
}

/// On a board with stones the candidates are the free cells at most two steps from a stone, each
/// once; on the empty board the centre is the only candidate.
pub proof fn law_candidates(s: rules::Cells)
    requires
        rules::is_cells(s),
    ensures
        rules::candidates(s).no_duplicates(),
        forall|p: Position| #[trigger] rules::candidates(s).contains(p) ==> rules::is_free(s, p),
        rules::stones(s) > 0 ==> forall|p: Position| #[trigger]
            rules::candidates(s).contains(p) <==> rules::is_free(s, p) && exists|q: Position| #[trigger]
                is_stone(s, q) && close(p, q),
        rules::stones(s) == 0 ==> rules::candidates(s) == seq![Position { row: 9, column: 9 }],
{
    lemma_near_stones(s, 324);
    rules::lemma_stones_bounds(s, 324);
    if rules::stones(s) == 0 {
        assert(s[171] is None);
    } else {
        assert forall|p: Position| #[trigger] rules::candidates(s).contains(p) <==> rules::is_free(s, p) && exists|
            q: Position,
        | #[trigger] is_stone(s, q) && close(p, q) by {
            if rules::candidates(s).contains(p) {
                let k = choose|k: int|
                    0 <= k < 324 && (#[trigger] s[k]) is Some && rules::near(k, rules::index(p));
                lemma_near_is_close(k, p);
                rules::lemma_index(k);
                assert(is_stone(s, rules::position(k)));
            }
            if rules::is_free(s, p) && exists|q: Position| #[trigger] is_stone(s, q) && close(p, q) {
                let q = choose|q: Position| #[trigger] is_stone(s, q) && close(p, q);
                lemma_near_is_close(rules::index(q), p);
                assert(s[rules::index(q)] is Some);
                assert(rules::position(rules::index(q)) == q);
            }
        }
    }
}

/// Every candidate is a free cell.
pub proof fn lemma_candidate_is_free(s: rules::Cells, i: int)
    requires
        rules::is_cells(s),
        0 <= i < rules::candidates(s).len(),
    ensures
        rules::is_free(s, rules::candidates(s)[i]),
{
    law_candidates(s);
    assert(rules::candidates(s).contains(rules::candidates(s)[i]));
}

/// Walking from a stone to a free cell, one comes by a free cell next to a stone.
proof fn lemma_walk(s: rules::Cells, q: Position, f: Position) -> (r: (Position, Position))
    requires
        rules::is_cells(s),
        is_stone(s, q),
        rules::is_free(s, f),
    ensures
        rules::is_free(s, r.0),
        is_stone(s, r.1),
        close(r.0, r.1),
    decreases
            rules::distance(q.row as int, f.row as int) + rules::distance(q.column as int, f.column as int),
{
    let step = if q.row < f.row {
        Position { row: (q.row + 1) as usize, column: q.column }
    } else if q.row > f.row {
        Position { row: (q.row - 1) as usize, column: q.column }
    } else if q.column < f.column {
        Position { row: q.row, column: (q.column + 1) as usize }
    } else {
        Position { row: q.row, column: (q.column - 1) as usize }
    };
    assert(q != f);
    if rules::is_free(s, step) {
        (step, q)
    } else {
        lemma_walk(s, step, f)
    }
}

/// There is a candidate exactly as long as there is a free cell.
pub proof fn law_candidates_until_full(s: rules::Cells)
    requires
        rules::is_cells(s),
    ensures
        rules::candidates(s).len() == 0 <==> rules::stones(s) == 324,
{
    law_candidates(s);
    rules::lemma_stones_bounds(s, 324);
    if rules::stones(s) == 324 {
        if rules::candidates(s).len() > 0 {
            lemma_candidate_is_free(s, 0);
            assert(s[rules::index(rules::candidates(s)[0])] is Some);
        }
    } else if rules::stones(s) > 0 {
        let n = choose|n: int| 0 <= n < 324 && !((#[trigger] s[n]) is Some);
        let k = choose|k: int| 0 <= k < 324 && !((#[trigger] s[k]) is None);
        rules::lemma_index(n);
        rules::lemma_index(k);
        let r = lemma_walk(s, rules::position(k), rules::position(n));
        assert(rules::candidates(s).contains(r.0));
    }
}

/// `j` steps from (r, c) in direction (dr, dc) lies a stone of colour `color`.
#[verifier::opaque]
pub open spec fn on_line(s: rules::Cells, r: int, c: int, dr: int, dc: int, color: Piece, j: int) -> bool {
    rules::is_color(s, r + j * dr, c + j * dc, color)
}

/// The five cells of direction `k` whose place `o` is `p` hold stones of colour `color`.
pub open spec fn five_through(s: rules::Cells, p: Position, color: Piece, k: int, o: int) -> bool {
    forall|j: int|
        -o <= j < 5 - o ==> #[trigger] on_line(
            s,
            p.row as int,
            p.column as int,
            rules::direction(k).0,
            rules::direction(k).1,
            color,
            j,
        )
}

pub proof fn lemma_on_line(s: rules::Cells, r: int, c: int, dr: int, dc: int, color: Piece, j: int)
    ensures
        on_line(s, r + dr, c + dc, dr, dc, color, j) == on_line(s, r, c, dr, dc, color, j + 1),
        on_line(s, r, c, -dr, -dc, color, j) == on_line(s, r, c, dr, dc, color, -j),
        on_line(s, r, c, dr, dc, color, 0) == rules::is_color(s, r, c, color),
{
    reveal(on_line);
    assert((j + 1) * dr == j * dr + dr && j * (-dr) == (-j) * dr && 0 * dr == 0) by (nonlinear_arith);
    assert((j + 1) * dc == j * dc + dc && j * (-dc) == (-j) * dc && 0 * dc == 0) by (nonlinear_arith);
}

/// The stones of a run lie on its line.
pub proof fn lemma_run_cells(s: rules::Cells, r: int, c: int, dr: int, dc: int, color: Piece, n: int)
    requires
        -1 <= dr <= 1,
        -1 <= dc <= 1,
        dr != 0 || dc != 0,
        -1 <= r <= 18,
        -1 <= c <= 18,
        0 <= n,
    ensures
        rules::run(s, r, c, dr, dc, color) >= n <==> forall|j: int|
            0 <= j < n ==> #[trigger] on_line(s, r, c, dr, dc, color, j),
    decreases n,
{
    rules::lemma_run(s, r, c, dr, dc, color);
    lemma_on_line(s, r, c, dr, dc, color, 0);
    if n > 0 && rules::is_color(s, r, c, color) {
        lemma_run_cells(s, r + dr, c + dc, dr, dc, color, n - 1);
        if rules::run(s, r, c, dr, dc, color) >= n {
            assert forall|j: int| 0 <= j < n implies #[trigger] on_line(s, r, c, dr, dc, color, j) by {
                lemma_on_line(s, r, c, dr, dc, color, j - 1);
            }
        } else {
            let j = choose|j: int| 0 <= j < n - 1 && !#[trigger] on_line(s, r + dr, c + dc, dr, dc, color, j);
            lemma_on_line(s, r, c, dr, dc, color, j);
            assert(!on_line(s, r, c, dr, dc, color, j + 1));
        }
    }
}

/// A line does not come back to the cell that it leaves.
proof fn lemma_beside_put(s: rules::Cells, p: Position, color: Piece, dr: int, dc: int, j: int)
    requires
        rules::is_cells(s),
        rules::holds(p),
        dr != 0 || dc != 0,
        j != 0,
    ensures
        on_line(rules::put(s, p, color), p.row as int, p.column as int, dr, dc, color, j) == on_line(
            s,
            p.row as int,
            p.column as int,
            dr,
            dc,
            color,
            j,
        ),
{
    reveal(on_line);
    assert(j * dr != 0 || j * dc != 0) by (nonlinear_arith)
        requires
            j != 0,
            dr != 0 || dc != 0,
    ;
}

/// A run of five or more through `p` holds five cells in a line with `p` among them.
proof fn lemma_five(s: rules::Cells, p: Position, color: Piece, k: int)
    requires
        rules::is_cells(s),
        rules::is_free(s, p),
        0 <= k < 4,
    ensures
        rules::direction_wins(
            s,
            p.row as int,
            p.column as int,
            rules::direction(k).0,
            rules::direction(k).1,
            color,
        ) <==> exists|o: int| 0 <= o < 5 && #[trigger] five_through(rules::put(s, p, color), p, color, k, o),
{
    let dr = rules::direction(k).0;
    let dc = rules::direction(k).1;
    let r = p.row as int;
    let c = p.column as int;
    let t = rules::put(s, p, color);
    let ahead = rules::run(s, r + dr, c + dc, dr, dc, color);
    let behind = rules::run(s, r - dr, c - dc, -dr, -dc, color);
    rules::lemma_run(s, r + dr, c + dc, dr, dc, color);
    rules::lemma_run(s, r - dr, c - dc, -dr, -dc, color);
    if 1 + ahead + behind >= 5 {
        let o = if behind < 4 {
            behind
        } else {
            4
        };
        lemma_run_cells(s, r + dr, c + dc, dr, dc, color, 4 - o);
        lemma_run_cells(s, r - dr, c - dc, -dr, -dc, color, o);
        assert forall|j: int| -o <= j < 5 - o implies #[trigger] on_line(t, r, c, dr, dc, color, j) by {
            if j == 0 {
                lemma_on_line(t, r, c, dr, dc, color, 0);
            } else if j > 0 {
                lemma_beside_put(s, p, color, dr, dc, j);
                lemma_on_line(s, r, c, dr, dc, color, j - 1);
                assert(on_line(s, r + dr, c + dc, dr, dc, color, j - 1));
            } else {
                lemma_beside_put(s, p, color, dr, dc, j);
                lemma_on_line(s, r, c, -dr, -dc, color, -j - 1);
                lemma_on_line(s, r, c, dr, dc, color, -j);
                assert(on_line(s, r - dr, c - dc, -dr, -dc, color, -j - 1));
            }
        }
        assert(five_through(t, p, color, k, o));
    }
    if exists|o: int| 0 <= o < 5 && #[trigger] five_through(t, p, color, k, o) {
        let o = choose|o: int| 0 <= o < 5 && #[trigger] five_through(t, p, color, k, o);
        lemma_run_cells(s, r + dr, c + dc, dr, dc, color, 4 - o);
        lemma_run_cells(s, r - dr, c - dc, -dr, -dc, color, o);
        assert forall|j: int| 0 <= j < 4 - o implies #[trigger] on_line(s, r + dr, c + dc, dr, dc, color, j) by {
            lemma_beside_put(s, p, color, dr, dc, j + 1);
            lemma_on_line(s, r, c, dr, dc, color, j);
            assert(on_line(t, r, c, dr, dc, color, j + 1));
        }
        assert forall|j: int| 0 <= j < o implies #[trigger] on_line(s, r - dr, c - dc, -dr, -dc, color, j) by {
            lemma_beside_put(s, p, color, dr, dc, -j - 1);
            lemma_on_line(s, r, c, -dr, -dc, color, j);
            lemma_on_line(s, r, c, dr, dc, color, j + 1);
            assert(on_line(t, r, c, dr, dc, color, -j - 1));
        }
    }
}

/// A move wins exactly if the cell is free and, once the stone lies there, some five cells in a
/// line, its own among them, hold stones of its colour.
pub proof fn law_win_means_five(s: rules::Cells, p: Position, color: Piece)
    requires
        rules::is_cells(s),
    ensures
        rules::would_win(s, p, color) <==> rules::is_free(s, p) && exists|k: int, o: int|
            0 <= k < 4 && 0 <= o < 5 && #[trigger] five_through(rules::put(s, p, color), p, color, k, o),
{
    if rules::is_free(s, p) {
        let t = rules::put(s, p, color);
        if rules::would_win(s, p, color) {
            let k = choose|k: int|
                0 <= k < 4 && #[trigger] rules::direction_wins(
                    s,
                    p.row as int,
                    p.column as int,
                    rules::direction(k).0,
                    rules::direction(k).1,
                    color,
                );
            lemma_five(s, p, color, k);
            let o = choose|o: int| 0 <= o < 5 && #[trigger] five_through(t, p, color, k, o);
            assert(0 <= k < 4 && 0 <= o < 5 && five_through(t, p, color, k, o));
        }
        if exists|k: int, o: int| 0 <= k < 4 && 0 <= o < 5 && #[trigger] five_through(t, p, color, k, o) {
            let (k, o) = choose|k: int, o: int|
                0 <= k < 4 && 0 <= o < 5 && #[trigger] five_through(t, p, color, k, o);
            lemma_five(s, p, color, k);
        }
    }
}

/// The candidates leave out no winning move: a cell is among the winning moves exactly if a stone
/// on it makes five in a row.
pub proof fn law_winning_moves_are_all(s: rules::Cells, color: Piece)
    requires
        rules::is_cells(s),
    ensures
        forall|p: Position| #[trigger] rules::winning_moves(s, color).contains(p) <==> rules::would_win(s, p, color),
        forall|i: int|
            0 <= i < rules::winning_moves(s, color).len() ==> rules::would_win(
                s,
                #[trigger] rules::winning_moves(s, color)[i],
                color,
            ),
        rules::has_winning_move(s, color) <==> exists|p: Position| #[trigger] rules::would_win(s, p, color),
        rules::winning_moves(s, color).no_duplicates(),
{
    let wins = rules::winning_moves(s, color);
    law_candidates(s);
    rules::lemma_filter_members(rules::candidates(s), rules::winning(s, color));
    assert forall|p: Position| #[trigger] wins.contains(p) <==> rules::would_win(s, p, color) by {
        if rules::would_win(s, p, color) {
            lemma_win_is_candidate(s, p, color);
            assert(rules::winning(s, color)(p));
        }
    }
    if wins.len() > 0 {
        assert(wins.contains(wins[0]));
        assert(rules::would_win(s, wins[0], color));
    }
    if exists|p: Position| #[trigger] rules::would_win(s, p, color) {
        let p = choose|p: Position| #[trigger] rules::would_win(s, p, color);
        assert(wins.contains(p));
    }
    lemma_filter_no_duplicates(rules::candidates(s), rules::winning(s, color));
}

proof fn lemma_filter_no_duplicates<T>(s: Seq<T>, pred: spec_fn(T) -> bool)
    requires
        s.no_duplicates(),
    ensures
        s.filter(pred).no_duplicates(),
    decreases s.len(),
{
    reveal(Seq::filter);
    if s.len() > 0 {
        let t = s.drop_last();
        lemma_filter_no_duplicates(t, pred);
        rules::lemma_filter_members(t, pred);
        if t.filter(pred).contains(s.last()) {
            let i = choose|i: int| 0 <= i < t.len() && t[i] == s.last();
            assert(s[i] == s[s.len() - 1]);
        }
        assert forall|i: int, j: int| 0 <= i < j < s.filter(pred).len() implies s.filter(pred)[i] != s.filter(pred)[j] by {
            if j == t.filter(pred).len() {
                assert(t.filter(pred).contains(t.filter(pred)[i]));
            }
        }
    }
}

/// A winning cell lies next to a stone.
proof fn lemma_win_is_candidate(s: rules::Cells, p: Position, color: Piece)
    requires
        rules::is_cells(s),
        rules::would_win(s, p, color),
    ensures
        rules::candidates(s).contains(p),
{
    law_candidates(s);
    rules::lemma_stones_bounds(s, 324);
    let k = choose|k: int|
        0 <= k < 4 && #[trigger] rules::direction_wins(
            s,
            p.row as int,
            p.column as int,
            rules::direction(k).0,
            rules::direction(k).1,
            color,
        );
    let dr = rules::direction(k).0;
    let dc = rules::direction(k).1;
    let r = p.row as int;
    let c = p.column as int;
    let (qr, qc) = if rules::is_color(s, r + dr, c + dc, color) {
        (r + dr, c + dc)
    } else {
        (r - dr, c - dc)
    };
    assert(rules::is_color(s, qr, qc, color));
    let q = Position { row: qr as usize, column: qc as usize };
    assert(is_stone(s, q));
    assert(close(p, q));
    assert(s[rules::index(q)] is Some);
}

/// The position with the two colours exchanged.
pub open spec fn mirrored(s: rules::Cells) -> rules::Cells {
    Seq::new(
        s.len(),
        |n: int|
            match s[n] {
                Some(color) => Some(rules::other(color)),
                None => None,
            },
    )
}

proof fn lemma_mirrored_run(s: rules::Cells, r: int, c: int, dr: int, dc: int, color: Piece)
    requires
        rules::is_cells(s),
    ensures
        rules::run(mirrored(s), r, c, dr, dc, rules::other(color)) == rules::run(s, r, c, dr, dc, color),
        rules::run_end(mirrored(s), r, c, dr, dc, rules::other(color)) == rules::run_end(s, r, c, dr, dc, color),
    decreases rules::steps_left(r, c, dr, dc),
{
    if rules::is_color(s, r, c, color) && (dr != 0 || dc != 0) {
        lemma_mirrored_run(s, r + dr, c + dc, dr, dc, color);
    }
}

proof fn lemma_mirrored_ray(s: rules::Cells, r: int, c: int, dr: int, dc: int, color: Piece)
    requires
        rules::is_cells(s),
    ensures
        rules::ray(mirrored(s), r, c, dr, dc, rules::other(color)) == rules::ray(s, r, c, dr, dc, color),
{
    lemma_mirrored_run(s, r + dr, c + dc, dr, dc, color);
    let end = rules::run_end(s, r + dr, c + dc, dr, dc, color);
    lemma_mirrored_run(s, end.0 + dr, end.1 + dc, dr, dc, color);
}

proof fn lemma_mirrored_reach(s: rules::Cells, found: Seq<Position>, n: int, m: int)
    requires
        rules::is_cells(s),
        0 <= m <= 324,
    ensures
        rules::reach(mirrored(s), found, n, m) == rules::reach(s, found, n, m),
    decreases m,
{
    if m > 0 {
        lemma_mirrored_reach(s, found, n, m - 1);
    }
}

proof fn lemma_mirrored_near_stones(s: rules::Cells, n: int)
    requires
        rules::is_cells(s),
        0 <= n <= 324,
    ensures
        rules::near_stones(mirrored(s), n) == rules::near_stones(s, n),
        rules::stones_upto(mirrored(s), n) == rules::stones_upto(s, n),
    decreases n,
{
    if n > 0 {
        lemma_mirrored_near_stones(s, n - 1);
        lemma_mirrored_reach(s, rules::near_stones(s, n - 1), n - 1, 324);
    }
}

/// A cell is worth to one colour what it is worth to the other on the board with the colours
/// exchanged.
pub proof fn law_mirrored_score(s: rules::Cells, p: Position, color: Piece)
    requires
        rules::is_cells(s),
    ensures
        rules::score(mirrored(s), p, rules::other(color)) == rules::score(s, p, color),
{
    let r = p.row as int;
    let c = p.column as int;
    if rules::holds(p) {
        lemma_mirrored_ray(s, r, c, 1, 0, color);
        lemma_mirrored_ray(s, r, c, -1, 0, color);
        lemma_mirrored_ray(s, r, c, 0, 1, color);
        lemma_mirrored_ray(s, r, c, 0, -1, color);
        lemma_mirrored_ray(s, r, c, 1, 1, color);
        lemma_mirrored_ray(s, r, c, -1, -1, color);
        lemma_mirrored_ray(s, r, c, 1, -1, color);
        lemma_mirrored_ray(s, r, c, -1, 1, color);
    }
}

/// A position is worth to one colour what it is worth to the other with the colours exchanged.
pub proof fn law_mirrored_evaluation(s: rules::Cells, color: Piece)
    requires
        rules::is_cells(s),
    ensures
        rules::candidates(mirrored(s)) == rules::candidates(s),
        rules::evaluation(mirrored(s), rules::candidates(mirrored(s)), rules::other(color)) == rules::evaluation(
            s,
            rules::candidates(s),
            color,
        ),
{
    lemma_mirrored_near_stones(s, 324);
    let ps = rules::candidates(s);
    assert forall|i: int| 0 <= i < ps.len() implies rules::score(mirrored(s), #[trigger] ps[i], rules::other(color))
        == rules::score(s, ps[i], color) by {
        law_mirrored_score(s, ps[i], color);
    }
    assert(rules::scores(mirrored(s), ps, rules::other(color)) =~= rules::scores(s, ps, color));
}

/// A line scores alike from both ends, and is a five from both or from none.
pub proof fn law_direction_is_symmetric(s: rules::Cells, r: int, c: int, dr: int, dc: int, color: Piece)
    ensures
        rules::direction_score(s, r, c, dr, dc, color) == rules::direction_score(s, r, c, -dr, -dc, color),
        rules::direction_wins(s, r, c, dr, dc, color) == rules::direction_wins(s, r, c, -dr, -dc, color),
{
    assert(-(-dr) == dr && -(-dc) == dc);
}

/// A stone lies at index `n`, and `p` is at most two rows and two columns from it.
pub open spec fn stone_near(s: rules::Cells, n: int, p: Position) -> bool {
    0 <= n < 324 && s[n] is Some && close(p, rules::position(n))
}

/// Going over the stones row by row, one near `p` is met first; or the same one is the first near both, and
/// `p` comes before `q` on the board.
pub open spec fn met_before(s: rules::Cells, p: Position, q: Position) -> bool {
    exists|n: int| #[trigger]
        stone_near(s, n, p) && (forall|m: int| m < n ==> !#[trigger] stone_near(s, m, q)) && (stone_near(s, n, q)
            ==> 18 * p.row + p.column < 18 * q.row + q.column)
}

proof fn lemma_reach_order(s: rules::Cells, found: Seq<Position>, n: int, m: int)
    requires
        0 <= m <= 324,
    ensures
        rules::reach(s, found, n, m).len() >= found.len(),
        forall|i: int| 0 <= i < found.len() ==> rules::reach(s, found, n, m)[i] == #[trigger] found[i],
        forall|i: int|
            found.len() <= i < rules::reach(s, found, n, m).len() ==> 0 <= rules::index(
                #[trigger] rules::reach(s, found, n, m)[i],
            ) < m,
        forall|i: int, j: int|
            found.len() <= i < j < rules::reach(s, found, n, m).len() ==> rules::index(
                #[trigger] rules::reach(s, found, n, m)[i],
            ) < rules::index(#[trigger] rules::reach(s, found, n, m)[j]),
    decreases m,
{
    if m > 0 {
        lemma_reach_order(s, found, n, m - 1);
        rules::lemma_index(m - 1);
    }
}

proof fn lemma_near_order(s: rules::Cells, n: int, i: int, j: int)
    requires
        rules::is_cells(s),
        0 <= n <= 324,
        0 <= i < j < rules::near_stones(s, n).len(),
    ensures
        met_before(s, rules::near_stones(s, n)[i], rules::near_stones(s, n)[j]),
    decreases n,
{
    let before = rules::near_stones(s, n - 1);
    if n > 0 {
        if s[n - 1] is None || j < before.len() {
            if s[n - 1] is Some {
                lemma_reach_order(s, before, n - 1, 324);
            }
            lemma_near_order(s, n - 1, i, j);
        } else {
            let after = rules::near_stones(s, n);
            let p = after[i];
            let q = after[j];
            lemma_near_stones(s, n - 1);
            lemma_near_stones(s, n);
            lemma_reach_order(s, before, n - 1, 324);
            assert(after.contains(p) && after.contains(q));
            assert(rules::holds(p) && rules::holds(q));
            assert(!before.contains(q)) by {
                if before.contains(q) {
                    let k = choose|k: int| 0 <= k < before.len() && before[k] == q;
                    assert(after[k] == q);
                }
            }
            assert forall|m: int| m < n - 1 implies !#[trigger] stone_near(s, m, q) by {
                if stone_near(s, m, q) {
                    lemma_near_is_close(m, q);
                    assert(s[m] is Some);
                }
            }
            if i < before.len() {
                assert(before[i] == p);
                assert(before.contains(p));
                let k = choose|k: int| 0 <= k < n - 1 && (#[trigger] s[k]) is Some && rules::near(k, rules::index(p));
                lemma_near_is_close(k, p);
                assert(stone_near(s, k, p));
            } else {
                let k = choose|k: int| 0 <= k < n && (#[trigger] s[k]) is Some && rules::near(k, rules::index(p));
                assert(!before.contains(p)) by {
                    if before.contains(p) {
                        let h = choose|h: int| 0 <= h < before.len() && before[h] == p;
                        assert(after[h] == p);
                    }
                }
                assert(k == n - 1);
                lemma_near_is_close(n - 1, p);
                assert(stone_near(s, n - 1, p));
            }
        }
    }
}

/// The candidates come in the order in which a walk over the stones, row by row, meets them, and those that
/// one stone is the first to be near, row by row.
pub proof fn law_candidates_come_in_order(s: rules::Cells, i: int, j: int)
    requires
        rules::is_cells(s),
        rules::stones(s) > 0,
        0 <= i < j < rules::candidates(s).len(),
    ensures
        met_before(s, rules::candidates(s)[i], rules::candidates(s)[j]),
{
    lemma_near_order(s, 324, i, j);
}

/// The first winning move is the first candidate that makes five in a row.
pub proof fn law_first_winning_move_comes_first(s: rules::Cells, color: Piece)
    requires
        rules::has_winning_move(s, color),
    ensures
        exists|at: int|
            0 <= at < rules::candidates(s).len() && #[trigger] rules::candidates(s)[at] == rules::winning_moves(
                s,
                color,
            )[0] && rules::would_win(s, rules::candidates(s)[at], color) && forall|k: int|
                0 <= k < at ==> !rules::would_win(s, #[trigger] rules::candidates(s)[k], color),
{
    lemma_first_kept(rules::candidates(s), rules::winning(s, color));
}

/// The first element that a filter keeps.
proof fn lemma_first_kept(s: Seq<Position>, pred: spec_fn(Position) -> bool)
    requires
        s.filter(pred).len() > 0,
    ensures
        exists|at: int|
            0 <= at < s.len() && #[trigger] s[at] == s.filter(pred)[0] && pred(s[at]) && forall|k: int|
                0 <= k < at ==> !pred(#[trigger] s[k]),
    decreases s.len(),
{
    reveal(Seq::filter);
    if s.len() > 0 {
        let t = s.drop_last();
        if t.filter(pred).len() > 0 {
            lemma_first_kept(t, pred);
            let at = choose|at: int|
                0 <= at < t.len() && #[trigger] t[at] == t.filter(pred)[0] && pred(t[at]) && forall|k: int|
                    0 <= k < at ==> !pred(#[trigger] t[k]);
            assert(s[at] == t[at]);
            assert forall|k: int| 0 <= k < at implies !pred(#[trigger] s[k]) by {
                assert(t[k] == s[k]);
            }
        } else {
            assert(s[s.len() - 1] == s.last());
            assert forall|k: int| 0 <= k < s.len() - 1 implies !pred(#[trigger] s[k]) by {
                if pred(s[k]) {
                    rules::lemma_filter_members(t, pred);
                    assert(t[k] == s[k]);
                    assert(t.contains(s[k]));
                    assert(t.filter(pred).contains(s[k]));
                }
            }
        }
    }
}

} // verus!
