//! What the scores of the board mean, in terms of the cells along a line.
use vstd::prelude::*;

use crate::board::{Piece, Position};
use crate::laws;
use crate::laws::on_line;
use crate::rules;

verus! {

/// One step down, right or along a diagonal, in either sense.
pub open spec fn is_step(dr: int, dc: int) -> bool {
    -1 <= dr <= 1 && -1 <= dc <= 1 && (dr != 0 || dc != 0)
}

/// The cell `j` steps from (r, c) is a free cell of the board.
#[verifier::opaque]
pub open spec fn free_at(s: rules::Cells, r: int, c: int, dr: int, dc: int, j: int) -> bool {
    0 <= r + j * dr < 18 && 0 <= c + j * dc < 18 && rules::at(s, r + j * dr, c + j * dc) is None
}

/// The stones of colour `color` that stand together with a stone on (r, c) reach from `lo` to `hi` steps
/// along the line, (r, c) itself being step 0, and no further.
pub open spec fn line_reaches(s: rules::Cells, r: int, c: int, dr: int, dc: int, color: Piece, lo: int, hi: int) -> bool {
    &&& lo <= 0 <= hi
    &&& forall|j: int| lo <= j <= hi && j != 0 ==> #[trigger] on_line(s, r, c, dr, dc, color, j)
    &&& !on_line(s, r, c, dr, dc, color, lo - 1)
    &&& !on_line(s, r, c, dr, dc, color, hi + 1)
}

/// Behind step `j`, seen in the sense of the direction, `n` stones of colour `color` follow one another
/// where the cell of step `j` is free; `n` is 0 where it is not.
pub open spec fn group_behind(s: rules::Cells, r: int, c: int, dr: int, dc: int, color: Piece, j: int, n: int) -> bool {
    if free_at(s, r, c, dr, dc, j) {
        &&& 0 <= n
        &&& forall|i: int| j < i <= j + n ==> #[trigger] on_line(s, r, c, dr, dc, color, i)
        &&& !on_line(s, r, c, dr, dc, color, j + n + 1)
    } else {
        n == 0
    }
}

/// A line seen from the other sense.
proof fn lemma_turned(s: rules::Cells, r: int, c: int, dr: int, dc: int, color: Piece, j: int)
    ensures
        free_at(s, r, c, -dr, -dc, j) == free_at(s, r, c, dr, dc, -j),
        on_line(s, r, c, -dr, -dc, color, j) == on_line(s, r, c, dr, dc, color, -j),
{
    reveal(free_at);
    reveal(on_line);
    assert(j * (-dr) == (-j) * dr && j * (-dc) == (-j) * dc) by (nonlinear_arith);
}

/// Steps from a cell further along the line.
proof fn lemma_further(s: rules::Cells, r: int, c: int, dr: int, dc: int, color: Piece, i: int, j: int)
    ensures
        on_line(s, r + i * dr, c + i * dc, dr, dc, color, j) == on_line(s, r, c, dr, dc, color, i + j),
        free_at(s, r + i * dr, c + i * dc, dr, dc, j) == free_at(s, r, c, dr, dc, i + j),
{
    reveal(free_at);
    reveal(on_line);
    assert(i * dr + j * dr == (i + j) * dr && i * dc + j * dc == (i + j) * dc) by (nonlinear_arith);
}

/// How many stones follow one another from step `i` on.
proof fn lemma_run_is(s: rules::Cells, r: int, c: int, dr: int, dc: int, color: Piece, i: int, n: int)
    requires
        is_step(dr, dc),
        -1 <= r + i * dr <= 18,
        -1 <= c + i * dc <= 18,
        0 <= n,
        forall|j: int| i <= j < i + n ==> #[trigger] on_line(s, r, c, dr, dc, color, j),
        !on_line(s, r, c, dr, dc, color, i + n),
    ensures
        rules::run(s, r + i * dr, c + i * dc, dr, dc, color) == n,
{
    let x = r + i * dr;
    let y = c + i * dc;
    laws::lemma_run_cells(s, x, y, dr, dc, color, n);
    laws::lemma_run_cells(s, x, y, dr, dc, color, n + 1);
    assert forall|j: int| 0 <= j < n implies #[trigger] on_line(s, x, y, dr, dc, color, j) by {
        lemma_further(s, r, c, dr, dc, color, i, j);
        assert(on_line(s, r, c, dr, dc, color, i + j));
    }
    lemma_further(s, r, c, dr, dc, color, i, n);
    assert(!on_line(s, x, y, dr, dc, color, n));
}

/// What a ray shows, in terms of the cells along it.
proof fn lemma_ray_is(s: rules::Cells, r: int, c: int, dr: int, dc: int, color: Piece, n: int, a: int)
    requires
        is_step(dr, dc),
        rules::on_board(r, c),
        0 <= n,
        forall|j: int| 0 < j <= n ==> #[trigger] on_line(s, r, c, dr, dc, color, j),
        !on_line(s, r, c, dr, dc, color, n + 1),
        group_behind(s, r, c, dr, dc, color, n + 1, a),
    ensures
        rules::ray(s, r, c, dr, dc, color).direct == n,
        rules::ray(s, r, c, dr, dc, color).open == free_at(s, r, c, dr, dc, n + 1),
        rules::ray(s, r, c, dr, dc, color).skip == a,
{
    reveal(free_at);
    assert(r + 1 * dr == r + dr && c + 1 * dc == c + dc);
    lemma_run_is(s, r, c, dr, dc, color, 1, n);
    rules::lemma_run(s, r + dr, c + dc, dr, dc, color);
    let end = rules::run_end(s, r + dr, c + dc, dr, dc, color);
    assert(r + dr + dr * n == r + (n + 1) * dr && c + dc + dc * n == c + (n + 1) * dc) by (nonlinear_arith);
    assert(end.0 == r + (n + 1) * dr && end.1 == c + (n + 1) * dc);
    if free_at(s, r, c, dr, dc, n + 1) {
        assert(r + (n + 1) * dr + dr == r + (n + 2) * dr && c + (n + 1) * dc + dc == c + (n + 2) * dc)
            by (nonlinear_arith);
        lemma_run_is(s, r, c, dr, dc, color, n + 2, a);
    }
}

/// The cells along a ray, in terms of what it shows.
proof fn lemma_ray_cells(s: rules::Cells, r: int, c: int, dr: int, dc: int, color: Piece)
    requires
        is_step(dr, dc),
        rules::on_board(r, c),
    ensures
        ({
            let ray = rules::ray(s, r, c, dr, dc, color);
            &&& 0 <= ray.direct
            &&& 0 <= ray.skip
            &&& forall|j: int| 0 < j <= ray.direct ==> #[trigger] on_line(s, r, c, dr, dc, color, j)
            &&& !on_line(s, r, c, dr, dc, color, ray.direct + 1)
            &&& ray.open == free_at(s, r, c, dr, dc, ray.direct + 1)
            &&& group_behind(s, r, c, dr, dc, color, ray.direct + 1, ray.skip)
        }),
{
    reveal(free_at);
    let ray = rules::ray(s, r, c, dr, dc, color);
    let n = ray.direct;
    rules::lemma_run(s, r + dr, c + dc, dr, dc, color);
    laws::lemma_run_cells(s, r + dr, c + dc, dr, dc, color, n);
    laws::lemma_run_cells(s, r + dr, c + dc, dr, dc, color, n + 1);
    assert(1 * dr == dr && 1 * dc == dc);
    assert forall|j: int| 0 < j <= n implies #[trigger] on_line(s, r, c, dr, dc, color, j) by {
        lemma_further(s, r, c, dr, dc, color, 1, j - 1);
        assert(on_line(s, r + dr, c + dc, dr, dc, color, j - 1));
    }
    let j = choose|j: int| 0 <= j < n + 1 && !#[trigger] on_line(s, r + dr, c + dc, dr, dc, color, j);
    assert(j == n);
    lemma_further(s, r, c, dr, dc, color, 1, n);
    let end = rules::run_end(s, r + dr, c + dc, dr, dc, color);
    assert(r + dr + dr * n == r + (n + 1) * dr && c + dc + dc * n == c + (n + 1) * dc) by (nonlinear_arith);
    if ray.open {
        let x = end.0 + dr;
        let y = end.1 + dc;
        assert(x == r + (n + 2) * dr && y == c + (n + 2) * dc) by (nonlinear_arith)
            requires
                x == r + (n + 1) * dr + dr,
                y == c + (n + 1) * dc + dc,
        ;
        rules::lemma_run(s, x, y, dr, dc, color);
        laws::lemma_run_cells(s, x, y, dr, dc, color, ray.skip);
        laws::lemma_run_cells(s, x, y, dr, dc, color, ray.skip + 1);
        assert forall|i: int| n + 1 < i <= n + 1 + ray.skip implies #[trigger] on_line(s, r, c, dr, dc, color, i) by {
            lemma_further(s, r, c, dr, dc, color, n + 2, i - n - 2);
            assert(on_line(s, x, y, dr, dc, color, i - n - 2));
        }
        let i = choose|i: int| 0 <= i < ray.skip + 1 && !#[trigger] on_line(s, x, y, dr, dc, color, i);
        assert(i == ray.skip);
        lemma_further(s, r, c, dr, dc, color, n + 2, ray.skip);
    }
}

/// The value of a line by the cells along it. `lo` and `hi` are how far the stones reach that stand
/// together with one on (r, c), `a` and `b` how many stand behind one free cell at either end. Five or
/// more are worth a million; four, 100000 where both ends are free and 25000 else; 25000 too where one
/// gap filled makes five, or where five stones stand around two gaps; an open three 8000, a three with
/// one free end 1500; a two 250 or 40 by its free ends, or 1200 or 400 where a gap filled makes a
/// three; and anything else 5 for each stone.
pub proof fn law_line_values(
    s: rules::Cells,
    r: int,
    c: int,
    dr: int,
    dc: int,
    color: Piece,
    lo: int,
    hi: int,
    a: int,
    b: int,
)
    requires
        is_step(dr, dc),
        0 <= r < 18,
        0 <= c < 18,
        line_reaches(s, r, c, dr, dc, color, lo, hi),
        group_behind(s, r, c, dr, dc, color, hi + 1, a),
        group_behind(s, r, c, -dr, -dc, color, 1 - lo, b),
    ensures
        ({
            let v = rules::direction_score(s, r, c, dr, dc, color);
            let n = hi - lo + 1;
            let ahead = free_at(s, r, c, dr, dc, hi + 1);
            let behind = free_at(s, r, c, dr, dc, lo - 1);
            let broken = a > 0 && n + a >= 4 || b > 0 && n + b >= 4 || a > 0 && b > 0 && n + a + b >= 5;
            let three = a > 0 && n + a == 3 || b > 0 && n + b == 3;
            &&& n >= 5 ==> v == 1_000_000
            &&& n == 4 && ahead && behind ==> v == 100_000
            &&& n == 4 && !(ahead && behind) ==> v == 25_000
            &&& n <= 3 && broken ==> v == 25_000
            &&& n == 3 && !broken && ahead && behind ==> v == 8_000
            &&& n == 3 && !broken && ahead != behind ==> v == 1_500
            &&& n == 3 && !broken && !ahead && !behind ==> v == 15
            &&& n == 2 && !broken && ahead && behind ==> v == if three {
                1_200int
            } else {
                250
            }
            &&& n == 2 && !broken && ahead != behind ==> v == if three {
                400int
            } else {
                40
            }
            &&& n == 2 && !broken && !ahead && !behind ==> v == 10
            &&& n == 1 && !broken ==> v == 5
        }),
{
    lemma_ray_is(s, r, c, dr, dc, color, hi, a);
    lemma_turned(s, r, c, dr, dc, color, 1 - lo);
    assert forall|j: int| 0 < j <= -lo implies #[trigger] on_line(s, r, c, -dr, -dc, color, j) by {
        lemma_turned(s, r, c, dr, dc, color, j);
        assert(on_line(s, r, c, dr, dc, color, -j));
    }
    lemma_ray_is(s, r, c, -dr, -dc, color, -lo, b);
}

/// How many stones stand together with a stone of colour `color` on (r, c), itself counted.
pub open spec fn line_length(s: rules::Cells, r: int, c: int, dr: int, dc: int, color: Piece) -> int {
    1 + rules::run(s, r + dr, c + dc, dr, dc, color) + rules::run(s, r - dr, c - dc, -dr, -dc, color)
}

/// The cell `j` steps from `p`.
pub open spec fn step_from(p: Position, dr: int, dc: int, j: int) -> Position {
    Position { row: (p.row + j * dr) as usize, column: (p.column + j * dc) as usize }
}

/// A stone that is put on a free cell of the line, seen from another cell.
proof fn lemma_filled(s: rules::Cells, p: Position, dr: int, dc: int, color: Piece, i: int, j: int)
    requires
        rules::is_cells(s),
        rules::holds(p),
        is_step(dr, dc),
        free_at(s, p.row as int, p.column as int, dr, dc, i),
    ensures
        rules::is_free(s, step_from(p, dr, dc, i)),
        on_line(rules::put(s, step_from(p, dr, dc, i), color), p.row as int, p.column as int, dr, dc, color, j) <==> j
            == i || on_line(s, p.row as int, p.column as int, dr, dc, color, j),
        j != i ==> free_at(rules::put(s, step_from(p, dr, dc, i), color), p.row as int, p.column as int, dr, dc, j)
            == free_at(s, p.row as int, p.column as int, dr, dc, j),
{
    reveal(free_at);
    reveal(on_line);
    if j != i {
        assert(j * dr != i * dr || j * dc != i * dc) by (nonlinear_arith)
            requires
                j != i,
                dr != 0 || dc != 0,
        ;
    }
}

/// A stone of colour `color` that is put on `q` is one more on the cells of a line through `p` just where
/// `q` is one of them.
proof fn lemma_put_cell(s: rules::Cells, p: Position, dr: int, dc: int, color: Piece, q: Position, j: int)
    requires
        rules::is_cells(s),
        rules::holds(p),
        rules::is_free(s, q),
    ensures
        on_line(rules::put(s, q, color), p.row as int, p.column as int, dr, dc, color, j) <==> on_line(
            s,
            p.row as int,
            p.column as int,
            dr,
            dc,
            color,
            j,
        ) || (free_at(s, p.row as int, p.column as int, dr, dc, j) && q == step_from(p, dr, dc, j)),
{
    reveal(on_line);
    reveal(free_at);
}

/// A stone on a cell other than the end of a ray does not lengthen it; one on its end does so by itself
/// and the stones behind.
proof fn lemma_ray_filled(s: rules::Cells, p: Position, dr: int, dc: int, color: Piece, q: Position)
    requires
        rules::is_cells(s),
        rules::holds(p),
        is_step(dr, dc),
        rules::is_free(s, q),
    ensures
        ({
            let r = p.row as int;
            let c = p.column as int;
            let ray = rules::ray(s, r, c, dr, dc, color);
            let longer = rules::run(rules::put(s, q, color), r + dr, c + dc, dr, dc, color);
            if ray.open && q == step_from(p, dr, dc, ray.direct + 1) {
                longer == ray.direct + 1 + ray.skip
            } else {
                longer == ray.direct
            }
        }),
{
    let r = p.row as int;
    let c = p.column as int;
    let ray = rules::ray(s, r, c, dr, dc, color);
    let n = ray.direct;
    let t = rules::put(s, q, color);
    lemma_ray_cells(s, r, c, dr, dc, color);
    assert(1 * dr == dr && 1 * dc == dc);
    if ray.open && q == step_from(p, dr, dc, n + 1) {
        assert forall|j: int| 1 <= j < 1 + (n + 1 + ray.skip) implies #[trigger] on_line(t, r, c, dr, dc, color, j) by {
            lemma_filled(s, p, dr, dc, color, n + 1, j);
            if j > n + 1 {
                assert(on_line(s, r, c, dr, dc, color, j));
            }
        }
        lemma_filled(s, p, dr, dc, color, n + 1, n + 2 + ray.skip);
        lemma_run_is(t, r, c, dr, dc, color, 1, n + 1 + ray.skip);
    } else {
        assert forall|j: int| 1 <= j < 1 + n implies #[trigger] on_line(t, r, c, dr, dc, color, j) by {
            assert(on_line(s, r, c, dr, dc, color, j));
            lemma_put_cell(s, p, dr, dc, color, q, j);
        }
        lemma_put_cell(s, p, dr, dc, color, q, n + 1);
        lemma_run_is(t, r, c, dr, dc, color, 1, n);
    }
}

/// Where one more stone of its colour makes five in a row together with a stone on `p`, that direction
/// is worth at least a four: 25000.
pub proof fn law_threat_of_five_is_a_four(s: rules::Cells, p: Position, q: Position, dr: int, dc: int, color: Piece)
    requires
        rules::is_cells(s),
        rules::is_free(s, p),
        rules::is_free(s, q),
        p != q,
        is_step(dr, dc),
        line_length(rules::put(s, q, color), p.row as int, p.column as int, dr, dc, color) >= 5,
    ensures
        rules::direction_score(s, p.row as int, p.column as int, dr, dc, color) >= 25_000,
{
    let r = p.row as int;
    let c = p.column as int;
    lemma_ray_cells(s, r, c, dr, dc, color);
    lemma_ray_cells(s, r, c, -dr, -dc, color);
    lemma_ray_filled(s, p, dr, dc, color, q);
    lemma_ray_filled(s, p, -dr, -dc, color, q);
    let a = rules::ray(s, r, c, dr, dc, color);
    let b = rules::ray(s, r, c, -dr, -dc, color);
    if a.open && b.open {
        lemma_two_ends(p, dr, dc, a.direct + 1, b.direct + 1, s);
    }
}

/// The two ends of a line are different cells.
proof fn lemma_two_ends(p: Position, dr: int, dc: int, i: int, j: int, s: rules::Cells)
    requires
        rules::holds(p),
        is_step(dr, dc),
        i > 0,
        j > 0,
        free_at(s, p.row as int, p.column as int, dr, dc, i),
        free_at(s, p.row as int, p.column as int, -dr, -dc, j),
    ensures
        step_from(p, dr, dc, i) != step_from(p, -dr, -dc, j),
{
    reveal(free_at);
    assert(i * dr != j * (-dr) || i * dc != j * (-dc)) by (nonlinear_arith)
        requires
            i > 0,
            j > 0,
            dr != 0 || dc != 0,
    ;
}

/// Where a direction is worth a four or more, four stones stand together with the one on `p`, or one
/// more stone makes five with it, or a stone on either side of it makes seven.
pub proof fn law_four_is_a_threat(s: rules::Cells, p: Position, dr: int, dc: int, color: Piece)
    requires
        rules::is_cells(s),
        rules::is_free(s, p),
        is_step(dr, dc),
        rules::direction_score(s, p.row as int, p.column as int, dr, dc, color) >= 25_000,
    ensures
        ({
            let r = p.row as int;
            let c = p.column as int;
            ||| line_length(s, r, c, dr, dc, color) >= 4
            ||| exists|q: Position| #[trigger]
                rules::is_free(s, q) && q != p && line_length(rules::put(s, q, color), r, c, dr, dc, color) >= 5
            ||| exists|i: int, j: int|
                i > 0 && j > 0 && #[trigger] free_at(s, r, c, dr, dc, i) && #[trigger] free_at(s, r, c, -dr, -dc, j)
                    && line_length(
                    rules::put(rules::put(s, step_from(p, dr, dc, i), color), step_from(p, -dr, -dc, j), color),
                    r,
                    c,
                    dr,
                    dc,
                    color,
                ) >= 7
        }),
{
    let r = p.row as int;
    let c = p.column as int;
    lemma_ray_cells(s, r, c, dr, dc, color);
    lemma_ray_cells(s, r, c, -dr, -dc, color);
    let a = rules::ray(s, r, c, dr, dc, color);
    let b = rules::ray(s, r, c, -dr, -dc, color);
    assert(r - dr == r + -dr && c - dc == c + -dc);
    if line_length(s, r, c, dr, dc, color) < 4 {
        let n = 1 + a.direct + b.direct;
        if a.open && b.open {
            lemma_two_ends(p, dr, dc, a.direct + 1, b.direct + 1, s);
        }
        if a.skip > 0 && n + a.skip >= 4 {
            let q = step_from(p, dr, dc, a.direct + 1);
            lemma_end_is_free(s, p, dr, dc, a.direct + 1);
            lemma_ray_filled(s, p, dr, dc, color, q);
            lemma_ray_filled(s, p, -dr, -dc, color, q);
        } else if b.skip > 0 && n + b.skip >= 4 {
            let q = step_from(p, -dr, -dc, b.direct + 1);
            lemma_end_is_free(s, p, -dr, -dc, b.direct + 1);
            lemma_ray_filled(s, p, dr, dc, color, q);
            lemma_ray_filled(s, p, -dr, -dc, color, q);
        } else {
            let q = step_from(p, dr, dc, a.direct + 1);
            let w = step_from(p, -dr, -dc, b.direct + 1);
            let t = rules::put(s, q, color);
            lemma_end_is_free(s, p, dr, dc, a.direct + 1);
            lemma_end_is_free(s, p, -dr, -dc, b.direct + 1);
            lemma_ray_filled(s, p, dr, dc, color, q);
            lemma_other_side(s, p, dr, dc, color, a.direct + 1);
            lemma_ray_cells(t, r, c, dr, dc, color);
            let ahead = rules::ray(t, r, c, dr, dc, color);
            assert(free_at(t, r, c, -dr, -dc, b.direct + 1));
            lemma_end_is_free(t, p, -dr, -dc, b.direct + 1);
            if ahead.open {
                lemma_two_ends(p, dr, dc, ahead.direct + 1, b.direct + 1, t);
            }
            lemma_ray_filled(t, p, dr, dc, color, w);
            lemma_ray_filled(t, p, -dr, -dc, color, w);
            assert(free_at(s, r, c, dr, dc, a.direct + 1) && free_at(s, r, c, -dr, -dc, b.direct + 1));
        }
    }
}

/// A free cell of the line, some steps on, is a free cell of the board.
proof fn lemma_end_is_free(s: rules::Cells, p: Position, dr: int, dc: int, i: int)
    requires
        rules::holds(p),
        is_step(dr, dc),
        i > 0,
        free_at(s, p.row as int, p.column as int, dr, dc, i),
    ensures
        rules::is_free(s, step_from(p, dr, dc, i)),
        step_from(p, dr, dc, i) != p,
{
    reveal(free_at);
    assert(i * dr != 0 || i * dc != 0) by (nonlinear_arith)
        requires
            i > 0,
            dr != 0 || dc != 0,
    ;
}

/// A stone on one side of `p` does not change what the ray to the other side shows.
proof fn lemma_other_side(s: rules::Cells, p: Position, dr: int, dc: int, color: Piece, i: int)
    requires
        rules::is_cells(s),
        rules::holds(p),
        is_step(dr, dc),
        i > 0,
        free_at(s, p.row as int, p.column as int, dr, dc, i),
    ensures
        ({
            let r = p.row as int;
            let c = p.column as int;
            let t = rules::put(s, step_from(p, dr, dc, i), color);
            let ray = rules::ray(s, r, c, -dr, -dc, color);
            &&& rules::ray(t, r, c, -dr, -dc, color) == ray
            &&& forall|j: int| j > 0 ==> #[trigger] free_at(t, r, c, -dr, -dc, j) == free_at(s, r, c, -dr, -dc, j)
        }),
{
    let r = p.row as int;
    let c = p.column as int;
    let t = rules::put(s, step_from(p, dr, dc, i), color);
    let ray = rules::ray(s, r, c, -dr, -dc, color);
    lemma_ray_cells(s, r, c, -dr, -dc, color);
    assert forall|j: int| j > 0 implies #[trigger] free_at(t, r, c, -dr, -dc, j) == free_at(s, r, c, -dr, -dc, j)
        && on_line(t, r, c, -dr, -dc, color, j) == on_line(s, r, c, -dr, -dc, color, j) by {
        lemma_turned(s, r, c, dr, dc, color, j);
        lemma_turned(t, r, c, dr, dc, color, j);
        lemma_filled(s, p, dr, dc, color, i, -j);
    }
    assert forall|j: int| 0 < j <= ray.direct implies #[trigger] on_line(t, r, c, -dr, -dc, color, j) by {
        assert(on_line(s, r, c, -dr, -dc, color, j));
        assert(free_at(t, r, c, -dr, -dc, j) == free_at(s, r, c, -dr, -dc, j));
    }
    let n = ray.direct + 1;
    assert(free_at(t, r, c, -dr, -dc, n) == free_at(s, r, c, -dr, -dc, n));
    let m = n + ray.skip + 1;
    assert(free_at(t, r, c, -dr, -dc, m) == free_at(s, r, c, -dr, -dc, m));
    assert forall|j: int| n < j <= n + ray.skip && ray.open implies #[trigger] on_line(t, r, c, -dr, -dc, color, j) by {
        assert(on_line(s, r, c, -dr, -dc, color, j));
        assert(free_at(t, r, c, -dr, -dc, j) == free_at(s, r, c, -dr, -dc, j));
    }
    lemma_ray_is(t, r, c, -dr, -dc, color, ray.direct, ray.skip);
}

/// What a free cell is worth: what a stone makes of it down, right and along both diagonals, and up to
/// 60 more, 2 less for each row and each column that it lies from the centre.
pub proof fn law_score_adds_up(s: rules::Cells, p: Position, color: Piece)
    requires
        rules::is_free(s, p),
    ensures
        ({
            let r = p.row as int;
            let c = p.column as int;
            let rows = if r < 9 {
                9 - r
            } else {
                r - 9
            };
            let columns = if c < 9 {
                9 - c
            } else {
                c - 9
            };
            rules::score(s, p, color) + 2 * rows + 2 * columns - 60 == rules::direction_score(s, r, c, 1, 0, color)
                + rules::direction_score(s, r, c, 0, 1, color) + rules::direction_score(s, r, c, 1, 1, color)
                + rules::direction_score(s, r, c, -1, 1, color)
        }),
{
    laws::law_direction_is_symmetric(s, p.row as int, p.column as int, 1, -1, color);
}

/// A cell that scores more than 80 is a candidate: only stones at most two steps off add to a score.
pub proof fn law_what_scores_is_a_candidate(s: rules::Cells, p: Position, color: Piece)
    requires
        rules::is_cells(s),
        rules::is_free(s, p),
        rules::score(s, p, color) > 80,
    ensures
        rules::candidates(s).contains(p),
{
    if !rules::candidates(s).contains(p) {
        lemma_far_off(s, p, 1, 0, color);
        lemma_far_off(s, p, 0, 1, color);
        lemma_far_off(s, p, 1, 1, color);
        lemma_far_off(s, p, 1, -1, color);
    }
}

/// A line without stones at most two steps off.
proof fn lemma_far_off(s: rules::Cells, p: Position, dr: int, dc: int, color: Piece)
    requires
        rules::is_cells(s),
        rules::is_free(s, p),
        !rules::candidates(s).contains(p),
        is_step(dr, dc),
    ensures
        rules::direction_score(s, p.row as int, p.column as int, dr, dc, color) == 5,
{
    lemma_far_ray(s, p, dr, dc, color);
    lemma_far_ray(s, p, -dr, -dc, color);
}

proof fn lemma_far_ray(s: rules::Cells, p: Position, dr: int, dc: int, color: Piece)
    requires
        rules::is_cells(s),
        rules::is_free(s, p),
        !rules::candidates(s).contains(p),
        is_step(dr, dc),
    ensures
        rules::ray(s, p.row as int, p.column as int, dr, dc, color).direct == 0,
        rules::ray(s, p.row as int, p.column as int, dr, dc, color).skip == 0,
{
    let r = p.row as int;
    let c = p.column as int;
    lemma_no_stone(s, p, r + dr, c + dc);
    lemma_no_stone(s, p, r + 2 * dr, c + 2 * dc);
    assert(r + dr + dr == r + 2 * dr && c + dc + dc == c + 2 * dc);
}

/// There is no stone at most two steps from a free cell that is no candidate.
proof fn lemma_no_stone(s: rules::Cells, p: Position, r: int, c: int)
    requires
        rules::is_cells(s),
        rules::is_free(s, p),
        !rules::candidates(s).contains(p),
        -2 <= r - p.row <= 2,
        -2 <= c - p.column <= 2,
    ensures
        rules::at(s, r, c) is None,
{
    laws::law_candidates(s);
    rules::lemma_stones_bounds(s, 324);
    if rules::at(s, r, c) is Some {
        let q = Position { row: r as usize, column: c as usize };
        assert(laws::is_stone(s, q) && laws::close(p, q));
        if rules::stones(s) == 0 {
            assert(s[rules::index(q)] is None);
        }
    }
}

/// Four more cells in a line with `p`, `o` of them on the one side and the rest on the other, hold stones
/// of colour `color`.
pub open spec fn four_beside(s: rules::Cells, p: Position, color: Piece, dr: int, dc: int, o: int) -> bool {
    forall|j: int|
        -o <= j < 5 - o && j != 0 ==> #[trigger] on_line(s, p.row as int, p.column as int, dr, dc, color, j)
}

/// A stone wins exactly where its cell is free and four more stones of its colour stand with it in an
/// unbroken line, in any direction.
pub proof fn law_win_is_five_in_any_direction(s: rules::Cells, p: Position, color: Piece)
    requires
        rules::is_cells(s),
    ensures
        rules::would_win(s, p, color) <==> rules::is_free(s, p) && exists|dr: int, dc: int, o: int|
            is_step(dr, dc) && 0 <= o < 5 && #[trigger] four_beside(s, p, color, dr, dc, o),
{
    laws::law_win_means_five(s, p, color);
    let t = rules::put(s, p, color);
    let r = p.row as int;
    let c = p.column as int;
    if rules::would_win(s, p, color) {
        let (k, o) = choose|k: int, o: int|
            0 <= k < 4 && 0 <= o < 5 && #[trigger] laws::five_through(t, p, color, k, o);
        let (dr, dc) = rules::direction(k);
        assert forall|j: int| -o <= j < 5 - o && j != 0 implies #[trigger] on_line(s, r, c, dr, dc, color, j) by {
            assert(on_line(t, r, c, dr, dc, color, j));
            lemma_own_cell(s, p, dr, dc, color, j);
        }
        assert(is_step(dr, dc) && four_beside(s, p, color, dr, dc, o));
    }
    if rules::is_free(s, p) && exists|dr: int, dc: int, o: int|
        is_step(dr, dc) && 0 <= o < 5 && #[trigger] four_beside(s, p, color, dr, dc, o) {
        let (dr, dc, o) = choose|dr: int, dc: int, o: int|
            is_step(dr, dc) && 0 <= o < 5 && #[trigger] four_beside(s, p, color, dr, dc, o);
        if dr == 1 || dr == 0 && dc == 1 {
            lemma_makes_five(s, p, color, dr, dc, o);
        } else {
            assert forall|j: int| -(4 - o) <= j < 5 - (4 - o) && j != 0 implies #[trigger] on_line(
                s,
                r,
                c,
                -dr,
                -dc,
                color,
                j,
            ) by {
                lemma_turned(s, r, c, dr, dc, color, j);
                assert(on_line(s, r, c, dr, dc, color, -j));
            }
            lemma_makes_five(s, p, color, -dr, -dc, 4 - o);
        }
    }
}

/// A stone on `p` changes no other cell of a line through it.
proof fn lemma_own_cell(s: rules::Cells, p: Position, dr: int, dc: int, color: Piece, j: int)
    requires
        rules::is_cells(s),
        rules::holds(p),
        is_step(dr, dc),
    ensures
        on_line(rules::put(s, p, color), p.row as int, p.column as int, dr, dc, color, j) <==> j == 0 || on_line(
            s,
            p.row as int,
            p.column as int,
            dr,
            dc,
            color,
            j,
        ),
{
    reveal(on_line);
    if j != 0 {
        assert(j * dr != 0 || j * dc != 0) by (nonlinear_arith)
            requires
                j != 0,
                dr != 0 || dc != 0,
        ;
    } else {
        assert(j * dr == 0 && j * dc == 0) by (nonlinear_arith)
            requires
                j == 0,
        ;
    }
}

proof fn lemma_makes_five(s: rules::Cells, p: Position, color: Piece, dr: int, dc: int, o: int)
    requires
        rules::is_cells(s),
        rules::is_free(s, p),
        is_step(dr, dc),
        dr == 1 || dr == 0 && dc == 1,
        0 <= o < 5,
        four_beside(s, p, color, dr, dc, o),
    ensures
        rules::would_win(s, p, color),
{
    let t = rules::put(s, p, color);
    let k: int = if dr == 0 {
        1
    } else if dc == 0 {
        0
    } else if dc == 1 {
        2
    } else {
        3
    };
    assert(rules::direction(k) == (dr, dc));
    assert forall|j: int| -o <= j < 5 - o implies #[trigger] on_line(
        t,
        p.row as int,
        p.column as int,
        dr,
        dc,
        color,
        j,
    ) by {
        lemma_own_cell(s, p, dr, dc, color, j);
        if j != 0 {
            assert(on_line(s, p.row as int, p.column as int, dr, dc, color, j));
        }
    }
    assert(laws::five_through(t, p, color, k, o));
    laws::law_win_means_five(s, p, color);
}

/// Four more stones in a line with `p` make a line of five.
proof fn lemma_four_beside(s: rules::Cells, p: Position, color: Piece, dr: int, dc: int, o: int)
    requires
        rules::holds(p),
        is_step(dr, dc),
        0 <= o < 5,
        four_beside(s, p, color, dr, dc, o),
    ensures
        line_length(s, p.row as int, p.column as int, dr, dc, color) >= 5,
{
    let r = p.row as int;
    let c = p.column as int;
    assert(1 * dr == dr && 1 * dc == dc && 1 * -dr == -dr && 1 * -dc == -dc);
    assert forall|j: int| 0 <= j < 4 - o implies #[trigger] on_line(s, r + dr, c + dc, dr, dc, color, j) by {
        lemma_further(s, r, c, dr, dc, color, 1, j);
        assert(on_line(s, r, c, dr, dc, color, 1 + j));
    }
    assert forall|j: int| 0 <= j < o implies #[trigger] on_line(s, r - dr, c - dc, -dr, -dc, color, j) by {
        lemma_further(s, r, c, -dr, -dc, color, 1, j);
        lemma_turned(s, r, c, dr, dc, color, 1 + j);
        assert(on_line(s, r, c, dr, dc, color, -(1 + j)));
    }
    laws::lemma_run_cells(s, r + dr, c + dc, dr, dc, color, 4 - o);
    laws::lemma_run_cells(s, r - dr, c - dc, -dr, -dc, color, o);
}

/// A stone that makes a new win threaten scores 25000 or more.
pub proof fn law_new_threat_scores(s: rules::Cells, p: Position, w: Position, color: Piece)
    requires
        rules::is_cells(s),
        rules::is_free(s, p),
        !rules::would_win(s, w, color),
        rules::would_win(rules::put(s, p, color), w, color),
    ensures
        rules::score(s, p, color) >= 25_000,
        rules::candidates(s).contains(p),
{
    let t = rules::put(s, p, color);
    law_win_is_five_in_any_direction(s, w, color);
    law_win_is_five_in_any_direction(t, w, color);
    let (dr, dc, o) = choose|dr: int, dc: int, o: int|
        is_step(dr, dc) && 0 <= o < 5 && #[trigger] four_beside(t, w, color, dr, dc, o);
    let x = w.row as int;
    let y = w.column as int;
    assert(w != p);
    assert(rules::is_free(s, w));
    assert(!four_beside(s, w, color, dr, dc, o));
    let j = choose|j: int| -o <= j < 5 - o && j != 0 && !#[trigger] on_line(s, x, y, dr, dc, color, j);
    assert(on_line(t, x, y, dr, dc, color, j));
    reveal(on_line);
    assert(p.row == x + j * dr && p.column == y + j * dc);
    let r = p.row as int;
    let c = p.column as int;
    let u = rules::put(s, w, color);
    assert(0 <= o + j < 5);
    assert forall|i: int| -(o + j) <= i < 5 - (o + j) && i != 0 implies #[trigger] on_line(
        u,
        r,
        c,
        dr,
        dc,
        color,
        i,
    ) by {
        lemma_further(u, x, y, dr, dc, color, j, i);
        lemma_own_cell(s, w, dr, dc, color, i + j);
        if i + j != 0 {
            assert(on_line(t, x, y, dr, dc, color, i + j));
            lemma_own_cell(s, p, dr, dc, color, i);
            lemma_further(t, x, y, dr, dc, color, j, i);
            lemma_further(s, x, y, dr, dc, color, j, i);
        }
    }
    lemma_four_beside(u, p, color, dr, dc, o + j);
    law_threat_of_five_is_a_four(s, p, w, dr, dc, color);
    lemma_direction_counts(s, p, color, dr, dc);
    law_what_scores_is_a_candidate(s, p, color);
}

/// A cell scores at least what it does in any one direction.
pub proof fn lemma_direction_counts(s: rules::Cells, p: Position, color: Piece, dr: int, dc: int)
    requires
        rules::is_free(s, p),
        is_step(dr, dc),
    ensures
        rules::score(s, p, color) >= rules::direction_score(s, p.row as int, p.column as int, dr, dc, color),
{
    let r = p.row as int;
    let c = p.column as int;
    rules::lemma_direction_score(s, r, c, 1, 0, color);
    rules::lemma_direction_score(s, r, c, 0, 1, color);
    rules::lemma_direction_score(s, r, c, 1, 1, color);
    rules::lemma_direction_score(s, r, c, 1, -1, color);
    laws::law_direction_is_symmetric(s, r, c, 1, 0, color);
    laws::law_direction_is_symmetric(s, r, c, 0, 1, color);
    laws::law_direction_is_symmetric(s, r, c, 1, 1, color);
    laws::law_direction_is_symmetric(s, r, c, 1, -1, color);
}

} // verus!
