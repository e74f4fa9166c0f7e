//! What the search computes.
//!
//! The search depends on the clock in two ways only: whether a look at the clock breaks it off, and
//! whether a look ahead for consecutive fours is cut short. An oracle, a sequence of truth values,
//! stands for what the clock will say each time; all else is a function of the position, the
//! window and what the search remembers.
use vstd::prelude::*;

use crate::board::{Piece, Position};
use crate::ranking;
use crate::rules;
use crate::transposition_table as table;
use crate::transposition_table::{Slots, TTEntry, TT_FLAG_EXACT, TT_FLAG_LOWER, TT_FLAG_UPPER};

use super::vcf;

verus! {

/// The two moves that last refuted something at a ply.
#[derive(Copy, Clone, Debug, PartialEq, Eq, Structural)]
pub struct Killers {
    pub first: Option<Position>,
    pub second: Option<Position>,
}

/// What the oracle is asked: whether a look ahead is cut short, or whether the time is up. A look ahead
/// is `early`, before the search, or at a leaf, and `timed` where it asks for the time at all.
pub enum Ask {
    Look { early: bool, timed: bool },
    TimeUp,
}

/// What a look ahead for consecutive fours asks.
pub open spec fn look_ask(early: bool, s: rules::Cells, attacker: Piece, max_depth: int) -> Ask {
    Ask::Look { early, timed: vcf::vcf_asks(s, attacker, max_depth) > 0 }
}

/// What the looks ahead before the search ask, for us and for the opponent.
pub open spec fn early_asks(s: rules::Cells, color: Piece) -> Seq<Ask> {
    seq![look_ask(true, s, color, 40), look_ask(true, s, rules::other(color), 40)]
}

/// What the search remembers: the table of results, the killer moves of each ply, the history of
/// each cell, the number of nodes, and what the oracle has been asked.
#[verifier::ext_equal]
pub struct State {
    pub slots: Slots,
    pub killers: Seq<Killers>,
    pub history: Seq<i32>,
    pub nodes: u64,
    pub asks: Seq<Ask>,
}

/// The state before the first node.
pub open spec fn fresh(slots: Slots, asks: Seq<Ask>) -> State {
    State {
        slots,
        killers: Seq::new(32, |i: int| Killers { first: None, second: None }),
        history: Seq::new(324, |i: int| 0i32),
        nodes: 0,
        asks,
    }
}

/// The oracle has been asked once more.
pub open spec fn asked(st: State, ask: Ask) -> State {
    State { asks: st.asks.push(ask), ..st }
}

/// What the oracle says next.
pub open spec fn says(st: State, oracle: Seq<bool>) -> bool {
    oracle[st.asks.len() as int]
}

/// The window that a table entry leaves, and the score that it answers with at once, if it does.
pub struct Window {
    pub alpha: int,
    pub beta: int,
    pub answer: Option<int>,
}

/// What a table entry says of a window: an entry at least as deep answers with an exact score,
/// raises alpha to a lower bound or drops beta to an upper bound, and answers where that closes
/// the window.
pub open spec fn window(entry: Option<TTEntry>, depth: nat, alpha: int, beta: int) -> Window {
    match entry {
        Some(e) => if e.depth >= depth {
            let a = if e.flag == TT_FLAG_LOWER && e.score > alpha {
                e.score as int
            } else {
                alpha
            };
            let b = if e.flag == TT_FLAG_UPPER && e.score < beta {
                e.score as int
            } else {
                beta
            };
            Window {
                alpha: a,
                beta: b,
                answer: if e.flag == TT_FLAG_EXACT || a >= b {
                    Some(e.score as int)
                } else {
                    None
                },
            }
        } else {
            Window { alpha, beta, answer: None }
        },
        None => Window { alpha, beta, answer: None },
    }
}

/// The move that a table entry holds.
pub open spec fn entry_move(entry: Option<TTEntry>) -> Option<Position> {
    match entry {
        Some(e) => e.best_move_spec(),
        None => None,
    }
}

/// What sort of result a score is that was found in the window from `alpha` to `beta`.
pub open spec fn bound_flag(score: int, alpha: int, beta: int) -> u8 {
    if score <= alpha {
        TT_FLAG_UPPER
    } else if score >= beta {
        TT_FLAG_LOWER
    } else {
        TT_FLAG_EXACT
    }
}

/// A look ahead for consecutive fours that is cut short finds nothing.
pub open spec fn timed_win(cut: bool, win: Option<Position>) -> Option<Position> {
    if cut {
        None
    } else {
        win
    }
}

/// What the position is worth to `color` by its patterns.
pub open spec fn static_value(s: rules::Cells, color: Piece) -> int {
    rules::evaluation(s, rules::candidates(s), color) - rules::evaluation(s, rules::candidates(s), rules::other(color))
}

/// The value of a leaf, given the wins by consecutive fours that were found for the player to move
/// and, where there is none, for the opponent.
pub open spec fn leaf_value(s: rules::Cells, color: Piece, own: Option<Position>, theirs: Option<Position>) -> int {
    if own is Some {
        999_990
    } else if theirs is Some {
        -999_990
    } else {
        static_value(s, color)
    }
}

/// How early a move is tried: a win, then the block of one, then the move of the table, then the
/// killers, then the others by what they are worth to both and by their history.
pub open spec fn order_value(
    s: rules::Cells,
    color: Piece,
    killers: Killers,
    history: Seq<i32>,
    table_move: Option<Position>,
    p: Position,
) -> int {
    if rules::would_win(s, p, color) {
        100_000_000
    } else if rules::would_win(s, p, rules::other(color)) {
        90_000_000
    } else if table_move == Some(p) {
        80_000_000
    } else if killers.first == Some(p) {
        10_000_000
    } else if killers.second == Some(p) {
        9_000_000
    } else {
        rules::score(s, p, color) + rules::score(s, p, rules::other(color)) + history[rules::index(p)]
    }
}

pub open spec fn by_order(
    s: rules::Cells,
    color: Piece,
    killers: Killers,
    history: Seq<i32>,
    table_move: Option<Position>,
) -> spec_fn(Position) -> int {
    |p: Position| order_value(s, color, killers, history, table_move, p)
}

/// The killers of a ply; the last ones serve for all later plies.
pub open spec fn killers_at(st: State, ply: nat) -> Killers {
    st.killers[killer_index(ply)]
}

pub open spec fn killer_index(ply: nat) -> int {
    if ply < 31 {
        ply as int
    } else {
        31
    }
}

/// The candidates in the order in which they are tried.
pub open spec fn ordered(s: rules::Cells, color: Piece, ply: nat, st: State, table_move: Option<Position>) -> Seq<
    Position,
> {
    ranking::ranked(rules::candidates(s), by_order(s, color, killers_at(st, ply), st.history, table_move))
}

/// The first 15 of `moves` where the first one scores 50000 or more, else the first 7.
pub open spec fn limited(s: rules::Cells, color: Piece, moves: Seq<Position>) -> Seq<Position> {
    let limit: int = if rules::score(s, moves[0], color) >= 50_000 {
        15
    } else {
        7
    };
    if moves.len() <= limit {
        moves
    } else {
        moves.take(limit)
    }
}

/// The state after `mv` has refuted the move before it: it becomes the first killer of its ply,
/// and its cell gains the square of the depth.
pub open spec fn refuted(st: State, ply: nat, mv: Position, depth: nat) -> State {
    let k = killers_at(st, ply);
    let n = rules::index(mv);
    State {
        killers: if k.first == Some(mv) {
            st.killers
        } else {
            st.killers.update(killer_index(ply), Killers { first: Some(mv), second: k.first })
        },
        history: st.history.update(n, vstd::wrapping::i32_specs::wrapping_add(st.history[n], (depth * depth) as i32)),
        ..st
    }
}

/// The value of a node to the player to move, and the state after it; no value where the search is
/// broken off. The clock is looked at every 512 nodes.
pub open spec fn node(
    s: rules::Cells,
    hash: u64,
    depth: nat,
    alpha: int,
    beta: int,
    color: Piece,
    ply: nat,
    st: State,
    oracle: Seq<bool>,
) -> (Option<int>, State)
    decreases depth, 3int, 0int,
{
    let counted = State { nodes: vstd::wrapping::u64_specs::wrapping_add(st.nodes, 1), ..st };
    if counted.nodes % 512 != 0 {
        counted_node(s, hash, depth, alpha, beta, color, ply, counted, oracle)
    } else if says(counted, oracle) {
        (None, asked(counted, Ask::TimeUp))
    } else {
        counted_node(s, hash, depth, alpha, beta, color, ply, asked(counted, Ask::TimeUp), oracle)
    }
}

/// The value of a node: what the table answers; at the horizon, the value of the leaf; else the
/// best of its moves.
pub open spec fn counted_node(
    s: rules::Cells,
    hash: u64,
    depth: nat,
    alpha: int,
    beta: int,
    color: Piece,
    ply: nat,
    st: State,
    oracle: Seq<bool>,
) -> (Option<int>, State)
    decreases depth, 2int, 0int,
{
    let entry = table::probed(st.slots, hash);
    let w = window(entry, depth, alpha, beta);
    if w.answer is Some {
        (w.answer, st)
    } else if depth == 0 {
        leaf(s, hash, color, st, oracle)
    } else if rules::candidates(s).len() == 0 {
        (Some(0), st)
    } else {
        let moves = limited(s, color, ordered(s, color, ply, st, entry_move(entry)));
        let (best, after) = best_move(
            s,
            hash,
            moves,
            0,
            (depth - 1) as nat,
            w.alpha,
            w.beta,
            (rules::no_score(), None),
            color,
            ply,
            st,
            oracle,
        );
        match best {
            Some(b) => (
                Some(b.0),
                State {
                    slots: table::stored(
                        after.slots,
                        table::entry_of(hash, depth as u8, b.0 as i32, bound_flag(b.0, w.alpha, w.beta), b.1),
                    ),
                    ..after
                },
            ),
            None => (None, after),
        }
    }
}

/// A leaf: its value goes into the table as an exact result.
pub open spec fn leaf(s: rules::Cells, hash: u64, color: Piece, st: State, oracle: Seq<bool>) -> (Option<int>, State) {
    let own = timed_win(says(st, oracle), vcf::vcf_win(s, color, 20));
    let st1 = asked(st, look_ask(false, s, color, 20));
    let theirs = timed_win(says(st1, oracle), vcf::vcf_win(s, rules::other(color), 20));
    let st2 = if own is Some {
        st1
    } else {
        asked(st1, look_ask(false, s, rules::other(color), 20))
    };
    let value = leaf_value(s, color, own, theirs);
    (
        Some(value),
        State {
            slots: table::stored(st2.slots, table::entry_of(hash, 0, value as i32, TT_FLAG_EXACT, None)),
            ..st2
        },
    )
}

/// The best of `moves` from place `i` on, or of those before, whose best is `best`: the first one
/// with the greatest value. A move that reaches beta refutes the move before it, and no more are
/// tried. `below` plies are looked ahead after each move.
pub open spec fn best_move(
    s: rules::Cells,
    hash: u64,
    moves: Seq<Position>,
    i: int,
    below: nat,
    alpha: int,
    beta: int,
    best: (int, Option<Position>),
    color: Piece,
    ply: nat,
    st: State,
    oracle: Seq<bool>,
) -> (Option<(int, Option<Position>)>, State)
    decreases below + 1, 1int, moves.len() - i,
{
    if i < 0 || i >= moves.len() {
        (Some(best), st)
    } else {
        let (value, after) = after_move(s, hash, moves[i], i == 0, below, alpha, beta, color, ply, st, oracle);
        match value {
            Some(v) => {
                let better = if v > best.0 {
                    (v, Some(moves[i]))
                } else {
                    best
                };
                let raised = if v > alpha {
                    v
                } else {
                    alpha
                };
                if raised >= beta {
                    (Some(better), refuted(after, ply, moves[i], below + 1))
                } else {
                    best_move(s, hash, moves, i + 1, below, raised, beta, better, color, ply, after, oracle)
                }
            },
            None => (None, after),
        }
    }
}

/// The value of `mv` to the player who makes it. A win counts a million. Otherwise the first move,
/// and any in `full`, is searched in the whole window; another only for whether it is better, and
/// in the whole window if it is.
pub open spec fn after_move(
    s: rules::Cells,
    hash: u64,
    mv: Position,
    full: bool,
    below: nat,
    alpha: int,
    beta: int,
    color: Piece,
    ply: nat,
    st: State,
    oracle: Seq<bool>,
) -> (Option<int>, State)
    decreases below + 1, 0int, 0int,
{
    let t = rules::put(s, mv, color);
    let key = hash ^ rules::stone_key(mv, color);
    let opponent = rules::other(color);
    if rules::would_win(s, mv, color) {
        (Some(1_000_000), st)
    } else if full {
        negated(node(t, key, below, -beta, -alpha, opponent, ply + 1, st, oracle))
    } else {
        let (value, after) = negated(node(t, key, below, -alpha - 1, -alpha, opponent, ply + 1, st, oracle));
        match value {
            Some(v) => if alpha < v < beta {
                negated(node(t, key, below, -beta, -alpha, opponent, ply + 1, after, oracle))
            } else {
                (value, after)
            },
            None => (None, after),
        }
    }
}

/// What is good for one player is bad for the other.
pub open spec fn negated(r: (Option<int>, State)) -> (Option<int>, State) {
    match r.0 {
        Some(v) => (Some(-v), r.1),
        None => r,
    }
}

/// How a score of the search is rated.
pub open spec fn search_reason(score: int) -> Seq<char> {
    if score >= 500_000 {
        "forced win"@
    } else if score >= 50_000 {
        "strong"@
    } else {
        "search"@
    }
}

/// A whole depth of the search: the best move, and the score of every move that was tried.
pub struct Depth {
    pub best: Option<super::Choice>,
    pub scores: Seq<(Position, i32)>,
}

/// The moves of the root from place `i` on, after those before have given `done`. The clock is
/// looked at before each.
pub open spec fn root_moves(
    s: rules::Cells,
    hash: u64,
    moves: Seq<Position>,
    i: int,
    depth: nat,
    alpha: int,
    done: Depth,
    color: Piece,
    st: State,
    oracle: Seq<bool>,
) -> (Option<Depth>, State)
    decreases moves.len() - i,
{
    if i < 0 || i >= moves.len() {
        (Some(done), st)
    } else if says(st, oracle) {
        (None, asked(st, Ask::TimeUp))
    } else if rules::would_win(s, moves[i], color) {
        (
            Some(
                Depth {
                    best: Some((moves[i], 1_000_000, "win depth "@ + crate::text::decimal(depth))),
                    scores: done.scores.push((moves[i], 1_000_000)),
                },
            ),
            asked(st, Ask::TimeUp),
        )
    } else {
        let (value, after) = after_move(
            s,
            hash,
            moves[i],
            i == 0 || depth == 1,
            (depth - 1) as nat,
            alpha,
            536_870_911,
            color,
            0,
            asked(st, Ask::TimeUp),
            oracle,
        );
        match value {
            Some(v) => root_moves(
                s,
                hash,
                moves,
                i + 1,
                depth,
                if v > alpha {
                    v
                } else {
                    alpha
                },
                Depth {
                    best: if done.best is Some && (done.best->0).1 >= v {
                        done.best
                    } else {
                        Some((moves[i], v, search_reason(v)))
                    },
                    scores: done.scores.push((moves[i], v as i32)),
                },
                color,
                after,
                oracle,
            ),
            None => (None, after),
        }
    }
}

/// The first place from `i` on at which `p` stands.
pub open spec fn place_of(moves: Seq<Position>, p: Position, i: int) -> Option<int>
    decreases moves.len() - i,
{
    if i < 0 || i >= moves.len() {
        None
    } else if moves[i] == p {
        Some(i)
    } else {
        place_of(moves, p, i + 1)
    }
}

/// `p`, where it is among `moves`, changes places with the first of them.
pub open spec fn promoted(moves: Seq<Position>, p: Option<Position>) -> Seq<Position> {
    match p {
        Some(q) => match place_of(moves, q, 0) {
            Some(i) => moves.update(0, moves[i]).update(i, moves[0]),
            None => moves,
        },
        None => moves,
    }
}

/// One depth of the search: the move of the table is tried first.
pub open spec fn whole_depth(
    s: rules::Cells,
    hash: u64,
    moves: Seq<Position>,
    depth: nat,
    color: Piece,
    st: State,
    oracle: Seq<bool>,
) -> (Option<Depth>, State) {
    root_moves(
        s,
        hash,
        promoted(moves, entry_move(table::probed(st.slots, hash))),
        0,
        depth,
        rules::no_score(),
        Depth { best: None, scores: Seq::empty() },
        color,
        st,
        oracle,
    )
}

/// One depth after the other, up to 16. Only a depth that was searched as a whole counts: where
/// one is broken off, the best move of the depth before stands.
pub open spec fn deepened(
    s: rules::Cells,
    hash: u64,
    moves: Seq<Position>,
    depth: nat,
    best: super::Choice,
    color: Piece,
    st: State,
    oracle: Seq<bool>,
) -> (super::Choice, State)
    decreases 17 - depth,
{
    if depth > 16 {
        (best, st)
    } else if says(st, oracle) {
        (best, asked(st, Ask::TimeUp))
    } else {
        let (found, after) = whole_depth(s, hash, moves, depth, color, asked(st, Ask::TimeUp), oracle);
        match found {
            Some(d) => deepened(
                s,
                hash,
                moves,
                depth + 1,
                match d.best {
                    Some(b) => b,
                    None => best,
                },
                color,
                after,
                oracle,
            ),
            None => (best, after),
        }
    }
}

/// What is told of a depth that was searched as a whole: the best move, its score and rating, the
/// depth, and the scores of the root's moves.
pub struct Report {
    pub position: Position,
    pub score: int,
    pub reason: Seq<char>,
    pub depth: nat,
    pub scores: Seq<(Position, i32)>,
}

/// What is told of one depth.
pub open spec fn report_of(d: Depth, depth: nat) -> Seq<Report> {
    match d.best {
        Some(b) => seq![Report { position: b.0, score: b.1, reason: b.2, depth, scores: d.scores }],
        None => Seq::empty(),
    }
}

/// What is told while one depth after the other is searched.
pub open spec fn reports(
    s: rules::Cells,
    hash: u64,
    moves: Seq<Position>,
    depth: nat,
    color: Piece,
    st: State,
    oracle: Seq<bool>,
) -> Seq<Report>
    decreases 17 - depth,
{
    if depth > 16 || says(st, oracle) {
        Seq::empty()
    } else {
        let (found, after) = whole_depth(s, hash, moves, depth, color, asked(st, Ask::TimeUp), oracle);
        match found {
            Some(d) => report_of(d, depth) + reports(s, hash, moves, depth + 1, color, after, oracle),
            None => Seq::empty(),
        }
    }
}

/// The moves that the root tries: the 15 candidates worth most. A block of the opponent's forced
/// win comes first, in the place of the first candidate where it is one of them, else in front.
pub open spec fn root_candidates(s: rules::Cells, color: Piece, block: Option<Position>) -> Seq<Position> {
    let ranked = ranking::ranked(rules::candidates(s), super::by_worth(s, color));
    let moves = if ranked.len() <= 15 {
        ranked
    } else {
        ranked.take(15)
    };
    match block {
        Some(p) => match place_of(moves, p, 0) {
            Some(_) => promoted(moves, block),
            None => seq![p] + moves,
        },
        None => moves,
    }
}

/// What a whole search comes to: the move, the table after it, what the oracle was asked, and what
/// was told of the depths.
pub struct Searched {
    pub found: Option<super::Choice>,
    pub slots: Slots,
    pub asks: Seq<Ask>,
    pub reports: Seq<Report>,
}

/// The whole search, when the oracle stands for the clock: a forced win by consecutive fours at
/// once; else the best move of the deepest depth that was searched as a whole, or the first of the
/// root's moves where none was.
#[verifier::opaque]
pub open spec fn searched(s: rules::Cells, hash: u64, color: Piece, slots: Slots, oracle: Seq<bool>) -> Searched {
    let own = timed_win(oracle[0], vcf::vcf_win(s, color, 40));
    let block = timed_win(oracle[1], vcf::vcf_win(s, rules::other(color), 40));
    if own is Some {
        Searched {
            found: Some((own->0, 999_999, "vcf forced win"@)),
            slots,
            asks: seq![look_ask(true, s, color, 40)],
            reports: Seq::empty(),
        }
    } else if rules::candidates(s).len() == 0 {
        Searched { found: None, slots, asks: early_asks(s, color), reports: Seq::empty() }
    } else {
        let moves = root_candidates(s, color, block);
        let start = fresh(slots, early_asks(s, color));
        let (best, after) = deepened(
            s,
            hash,
            moves,
            1,
            (moves[0], super::value(s, color, moves[0]), "greedy"@),
            color,
            start,
            oracle,
        );
        Searched {
            found: Some(best),
            slots: after.slots,
            asks: after.asks,
            reports: reports(s, hash, moves, 1, color, start, oracle),
        }
    }
}

/// Only whole depths count: what deepening returns is the choice that it began with, or the best
/// move of a depth that was searched as a whole.
pub proof fn law_only_whole_depths_count(
    s: rules::Cells,
    hash: u64,
    moves: Seq<Position>,
    depth: nat,
    best: super::Choice,
    color: Piece,
    st: State,
    oracle: Seq<bool>,
)
    ensures
        ({
            let r = deepened(s, hash, moves, depth, best, color, st, oracle).0;
            r == best || exists|d: nat, from: State|
                depth <= d <= 16 && is_best_of(#[trigger] whole_depth(s, hash, moves, d, color, from, oracle), r)
        }),
    decreases 17 - depth,
{
    if depth <= 16 && !says(st, oracle) {
        let from = asked(st, Ask::TimeUp);
        let found = whole_depth(s, hash, moves, depth, color, from, oracle);
        if let Some(d) = found.0 {
            let next = match d.best {
                Some(b) => b,
                None => best,
            };
            law_only_whole_depths_count(s, hash, moves, depth + 1, next, color, found.1, oracle);
            assert(next == best || is_best_of(whole_depth(s, hash, moves, depth, color, from, oracle), next));
        }
    }
}

/// A depth was searched as a whole, and `c` is its best move.
pub open spec fn is_best_of(found: (Option<Depth>, State), c: super::Choice) -> bool {
    found.0 matches Some(d) && d.best == Some(c)
}

} // verus!
