//! What holds of all that a search tells.
use std::sync::atomic::AtomicBool;
use std::time::Instant;

use vstd::prelude::*;

use crate::board::{Piece, Position};
use crate::clock;
use crate::ranking;
use crate::rules;
use crate::transposition_table as table;

use super::fours;
use super::search;
use super::search_model as model;
use super::search_model::{Depth, Report};
use super::vcf;

verus! {

/// `moves` are candidates, and none of them occurs twice.
spec fn are_candidates(s: rules::Cells, moves: Seq<Position>) -> bool {
    moves.no_duplicates() && forall|k: int| 0 <= k < moves.len() ==> rules::candidates(s).contains(#[trigger] moves[k])
}

/// `d` holds scores of the first moves, and the best move is one of them.
spec fn has_scored(moves: Seq<Position>, d: Depth) -> bool {
    &&& d.scores.len() <= moves.len()
    &&& forall|k: int| 0 <= k < d.scores.len() ==> (#[trigger] d.scores[k]).0 == moves[k]
    &&& d.best matches Some(b) ==> d.scores.contains((b.0, b.1 as i32))
}

/// The scores of a depth are of the first moves, and the best move is one of them.
proof fn lemma_root_moves(
    s: rules::Cells,
    hash: u64,
    moves: Seq<Position>,
    i: int,
    depth: nat,
    alpha: int,
    done: Depth,
    color: Piece,
    st: model::State,
    oracle: Seq<bool>,
)
    requires
        0 <= i <= moves.len(),
        done.scores.len() == i,
        has_scored(moves, done),
        i > 0 ==> done.best is Some,
    ensures
        model::root_moves(s, hash, moves, i, depth, alpha, done, color, st, oracle).0 matches Some(d) ==> has_scored(
            moves,
            d,
        ) && (moves.len() > 0 ==> d.best is Some),
    decreases moves.len() - i,
{
    if i < moves.len() && !model::says(st, oracle) {
        if rules::would_win(s, moves[i], color) {
            let scores = done.scores.push((moves[i], 1_000_000i32));
            assert(scores[i] == (moves[i], 1_000_000i32));
        } else {
            let (value, after) = model::after_move(
                s,
                hash,
                moves[i],
                i == 0 || depth == 1,
                (depth - 1) as nat,
                alpha,
                536_870_911,
                color,
                0,
                model::asked(st, model::Ask::TimeUp),
                oracle,
            );
            if let Some(v) = value {
                let next = Depth {
                    best: if done.best is Some && (done.best->0).1 >= v {
                        done.best
                    } else {
                        Some((moves[i], v, model::search_reason(v)))
                    },
                    scores: done.scores.push((moves[i], v as i32)),
                };
                assert(next.scores[i] == (moves[i], v as i32));
                if done.best is Some {
                    let b = done.best->0;
                    let k = choose|k: int| 0 <= k < done.scores.len() && done.scores[k] == (b.0, b.1 as i32);
                    assert(next.scores[k] == (b.0, b.1 as i32));
                }
                let raised = if v > alpha {
                    v
                } else {
                    alpha
                };
                lemma_root_moves(s, hash, moves, i + 1, depth, raised, next, color, after, oracle);
            }
        }
    }
}

/// Promoting a move changes the order only.
proof fn lemma_promoted_are_candidates(s: rules::Cells, moves: Seq<Position>, p: Option<Position>)
    requires
        are_candidates(s, moves),
    ensures
        are_candidates(s, model::promoted(moves, p)),
        model::promoted(moves, p).len() == moves.len(),
{
    if let Some(q) = p {
        search::lemma_place_of(moves, q, 0);
    }
}

/// The first of some moves that wins is one of them.
proof fn lemma_first_from(moves: Seq<Position>, wins: spec_fn(Position) -> bool, i: int)
    requires
        0 <= i,
    ensures
        vcf::first_from(moves, wins, i) matches Some(p) ==> moves.contains(p),
    decreases moves.len() - i,
{
    if i < moves.len() && !wins(moves[i]) {
        lemma_first_from(moves, wins, i + 1);
    }
}

/// A forced win begins with a candidate.
proof fn lemma_forced_win_is_candidate(s: rules::Cells, attacker: Piece, max_depth: int)
    ensures
        vcf::vcf_win(s, attacker, max_depth) matches Some(p) ==> rules::candidates(s).contains(p),
{
    let kept = rules::candidates(s).filter(super::reaches(s, attacker, 25_000));
    lemma_first_from(super::threats(s, attacker, 25_000), vcf::starts_win(s, attacker, max_depth), 0);
    rules::lemma_filter_members(rules::candidates(s), super::reaches(s, attacker, 25_000));
    ranking::lemma_ranked(kept, super::by_attack(s, attacker));
}

/// A move that has no place among `moves` is none of them.
proof fn lemma_no_place(moves: Seq<Position>, p: Position, i: int)
    requires
        0 <= i,
        model::place_of(moves, p, i) is None,
    ensures
        forall|k: int| i <= k < moves.len() ==> #[trigger] moves[k] != p,
    decreases moves.len() - i,
{
    if i < moves.len() {
        lemma_no_place(moves, p, i + 1);
    }
}

/// The moves of the root are candidates, and none of them occurs twice.
proof fn lemma_root_candidates(s: rules::Cells, color: Piece, block: Option<Position>)
    requires
        rules::is_cells(s),
        rules::candidates(s).len() > 0,
        block matches Some(p) ==> rules::candidates(s).contains(p),
    ensures
        are_candidates(s, model::root_candidates(s, color, block)),
        model::root_candidates(s, color, block).len() > 0,
{
    broadcast use vstd::seq_lib::group_to_multiset_ensures;

    let all = rules::candidates(s);
    let ranked = ranking::ranked(all, super::by_worth(s, color));
    crate::laws::law_candidates(s);
    ranking::lemma_ranked(all, super::by_worth(s, color));
    all.lemma_multiset_has_no_duplicates();
    ranked.lemma_multiset_has_no_duplicates_conv();
    assert forall|k: int| 0 <= k < ranked.len() implies all.contains(#[trigger] ranked[k]) by {
        assert(ranked.contains(ranked[k]));
    }
    let moves = if ranked.len() <= 15 {
        ranked
    } else {
        ranked.take(15)
    };
    assert(are_candidates(s, moves));
    lemma_promoted_are_candidates(s, moves, block);
    if let Some(p) = block {
        if model::place_of(moves, p, 0) is None {
            lemma_no_place(moves, p, 0);
            let r = seq![p] + moves;
            assert forall|a: int, b: int| 0 <= a < b < r.len() implies r[a] != r[b] by {
                if a > 0 {
                    assert(moves[a - 1] != moves[b - 1]);
                }
            }
        }
    }
}

/// `report` tells of the depth `depth`: with the scores of candidates, none of them twice, and of the
/// best move among them.
pub open spec fn is_report(s: rules::Cells, depth: int, report: Report) -> bool {
    &&& report.depth == depth
    &&& report.scores.contains((report.position, report.score as i32))
    &&& forall|a: int, b: int|
        0 <= a < b < report.scores.len() ==> (#[trigger] report.scores[a]).0 != (#[trigger] report.scores[b]).0
    &&& forall|a: int|
        0 <= a < report.scores.len() ==> rules::candidates(s).contains((#[trigger] report.scores[a]).0)
}

/// The depths that are told follow each other from `depth` on, and deepening returns what the last
/// report says.
proof fn lemma_reports(
    s: rules::Cells,
    hash: u64,
    moves: Seq<Position>,
    depth: nat,
    best: super::Choice,
    color: Piece,
    st: model::State,
    oracle: Seq<bool>,
)
    requires
        depth <= 17,
        moves.len() > 0,
        are_candidates(s, moves),
    ensures
        ({
            let told = model::reports(s, hash, moves, depth, color, st, oracle);
            let r = model::deepened(s, hash, moves, depth, best, color, st, oracle).0;
            &&& told.len() <= 17 - depth
            &&& forall|i: int| 0 <= i < told.len() ==> is_report(s, depth + i, #[trigger] told[i])
            &&& r == if told.len() == 0 {
                best
            } else {
                (told.last().position, told.last().score, told.last().reason)
            }
        }),
    decreases 17 - depth,
{
    let told = model::reports(s, hash, moves, depth, color, st, oracle);
    if depth <= 16 && !model::says(st, oracle) {
        let from = model::asked(st, model::Ask::TimeUp);
        let tried = model::promoted(moves, model::entry_move(table::probed(from.slots, hash)));
        let none = Depth { best: None, scores: Seq::empty() };
        lemma_promoted_are_candidates(s, moves, model::entry_move(table::probed(from.slots, hash)));
        lemma_root_moves(s, hash, tried, 0, depth, rules::no_score(), none, color, from, oracle);
        let (found, after) = model::whole_depth(s, hash, moves, depth, color, from, oracle);
        if let Some(d) = found {
            let b = d.best->0;
            let one = model::report_of(d, depth);
            let rest = model::reports(s, hash, moves, depth + 1, color, after, oracle);
            lemma_reports(s, hash, moves, depth + 1, b, color, after, oracle);
            assert(told == one + rest);
            assert(is_report(s, depth as int, one[0]));
            assert forall|i: int| 0 <= i < told.len() implies is_report(s, depth + i, #[trigger] told[i]) by {
                if i > 0 {
                    assert(told[i] == rest[i - 1]);
                    assert(is_report(s, depth + 1 + (i - 1), rest[i - 1]));
                }
            }
            if rest.len() > 0 {
                assert(told.last() == rest.last());
            }
        }
    }
}

/// A search that tells nothing of depths: it has found a forced win, or there is no move.
spec fn is_at_once(m: model::Searched) -> bool {
    m.reports.len() == 0 && (m.found matches Some(c) ==> c.2 == "vcf forced win"@)
}

/// A search that is not at once deepens from its greedy move.
proof fn lemma_deepens(s: rules::Cells, hash: u64, color: Piece, slots: table::Slots, oracle: Seq<bool>) -> (moves: Seq<
    Position,
>)
    requires
        rules::is_cells(s),
    ensures
        is_at_once(model::searched(s, hash, color, slots, oracle)) || ({
            let m = model::searched(s, hash, color, slots, oracle);
            let seed = (moves[0], super::value(s, color, moves[0]), "greedy"@);
            let start = model::fresh(slots, model::early_asks(s, color));
            let d = model::deepened(s, hash, moves, 1, seed, color, start, oracle);
            &&& moves.len() > 0
            &&& are_candidates(s, moves)
            &&& m.found == Some(d.0)
            &&& m.asks == d.1.asks
            &&& m.reports == model::reports(s, hash, moves, 1, color, start, oracle)
        }),
{
    let own = model::timed_win(oracle[0], vcf::vcf_win(s, color, 40));
    let block = model::timed_win(oracle[1], vcf::vcf_win(s, rules::other(color), 40));
    let m = model::searched(s, hash, color, slots, oracle);
    if own is Some || rules::candidates(s).len() == 0 {
        assert(is_at_once(m)) by {
            reveal(model::searched);
        }
    } else {
        lemma_forced_win_is_candidate(s, rules::other(color), 40);
        lemma_root_candidates(s, color, block);
        reveal(model::searched);
    }
    model::root_candidates(s, color, block)
}

/// A search tells of the depths 1, 2 and so on, 16 at most, and of each the scores of candidates, none
/// of them twice, and the best move among them. What it returns is what it told last: a depth that is
/// broken off does not count. Where it told nothing, it returns no move, the greedy one or the first
/// of a forced win.
pub proof fn law_search_returns_what_it_told_last(
    s: rules::Cells,
    hash: u64,
    color: Piece,
    slots: table::Slots,
    deadline: Instant,
    cancel: &AtomicBool,
    r: Option<(Position, i32, String)>,
    after: table::Slots,
    reports: Seq<Report>,
)
    requires
        rules::is_cells(s),
        search::may_find(s, hash, color, slots, deadline, cancel, r, after, reports),
    ensures
        reports.len() <= 16,
        forall|i: int| 0 <= i < reports.len() ==> is_report(s, i + 1, #[trigger] reports[i]),
        reports.len() > 0 ==> (r matches Some(c) && c.0 == reports.last().position && c.1 == reports.last().score
            && c.2@ == reports.last().reason),
        reports.len() == 0 ==> (r matches Some(c) ==> c.2@ == "greedy"@ || c.2@ == "vcf forced win"@),
{
    reveal(search::may_find);
    let (oracle, early) = choose|oracle: Seq<bool>, early: Instant| #[trigger]
        search::in_time(model::searched(s, hash, color, slots, oracle), oracle, deadline, cancel, early)
            && search::is_search(model::searched(s, hash, color, slots, oracle), r, after) && reports
            == model::searched(s, hash, color, slots, oracle).reports;
    let m = model::searched(s, hash, color, slots, oracle);
    let moves = lemma_deepens(s, hash, color, slots, oracle);
    if !is_at_once(m) {
        let seed = (moves[0], super::value(s, color, moves[0]), "greedy"@);
        let start = model::fresh(slots, model::early_asks(s, color));
        lemma_reports(s, hash, moves, 1, seed, color, start, oracle);
    }
}

/// `after` goes on from `before`.
spec fn goes_on(before: Seq<model::Ask>, after: Seq<model::Ask>) -> bool {
    before.len() <= after.len() && forall|i: int| 0 <= i < before.len() ==> after[i] == #[trigger] before[i]
}

/// The last that was asked is whether the time is up, and it was.
spec fn broken_off(st: model::State, oracle: Seq<bool>) -> bool {
    st.asks.len() > 0 && st.asks.last() == model::Ask::TimeUp && oracle[st.asks.len() - 1]
}

/// The questions of `r` go on from those of `st`, and where there is no value, the time was up.
spec fn asks_on<T>(st: model::State, r: (Option<T>, model::State), oracle: Seq<bool>) -> bool {
    goes_on(st.asks, r.1.asks) && (r.0 is None ==> broken_off(r.1, oracle))
}

proof fn lemma_node_asks(
    s: rules::Cells,
    hash: u64,
    depth: nat,
    alpha: int,
    beta: int,
    color: Piece,
    ply: nat,
    st: model::State,
    oracle: Seq<bool>,
)
    ensures
        asks_on(st, model::node(s, hash, depth, alpha, beta, color, ply, st, oracle), oracle),
    decreases depth, 3int, 0int,
{
    let counted = model::State { nodes: vstd::wrapping::u64_specs::wrapping_add(st.nodes, 1), ..st };
    if counted.nodes % 512 != 0 {
        lemma_counted_asks(s, hash, depth, alpha, beta, color, ply, counted, oracle);
    } else if !model::says(counted, oracle) {
        let asked = model::asked(counted, model::Ask::TimeUp);
        lemma_counted_asks(s, hash, depth, alpha, beta, color, ply, asked, oracle);
        let r = model::counted_node(s, hash, depth, alpha, beta, color, ply, asked, oracle);
        assert forall|i: int| 0 <= i < st.asks.len() implies r.1.asks[i] == #[trigger] st.asks[i] by {
            assert(asked.asks[i] == st.asks[i]);
        }
    }
}

proof fn lemma_counted_asks(
    s: rules::Cells,
    hash: u64,
    depth: nat,
    alpha: int,
    beta: int,
    color: Piece,
    ply: nat,
    st: model::State,
    oracle: Seq<bool>,
)
    ensures
        asks_on(st, model::counted_node(s, hash, depth, alpha, beta, color, ply, st, oracle), oracle),
    decreases depth, 2int, 0int,
{
    let entry = table::probed(st.slots, hash);
    let w = model::window(entry, depth, alpha, beta);
    if w.answer is None && depth > 0 && rules::candidates(s).len() > 0 {
        let moves = model::limited(s, color, model::ordered(s, color, ply, st, model::entry_move(entry)));
        lemma_best_asks(
            s,
            hash,
            moves,
            0,
            (depth - 1) as nat,
            w.alpha,
            w.beta,
            (rules::no_score(), None),
            color,
            ply,
            st,
            oracle,
        );
    }
}

proof fn lemma_best_asks(
    s: rules::Cells,
    hash: u64,
    moves: Seq<Position>,
    i: int,
    below: nat,
    alpha: int,
    beta: int,
    best: (int, Option<Position>),
    color: Piece,
    ply: nat,
    st: model::State,
    oracle: Seq<bool>,
)
    ensures
        asks_on(
            st,
            model::best_move(s, hash, moves, i, below, alpha, beta, best, color, ply, st, oracle),
            oracle,
        ),
    decreases below + 1, 1int, moves.len() - i,
{
    if 0 <= i < moves.len() {
        lemma_after_asks(s, hash, moves[i], i == 0, below, alpha, beta, color, ply, st, oracle);
        let (value, after) = model::after_move(s, hash, moves[i], i == 0, below, alpha, beta, color, ply, st, oracle);
        if let Some(v) = value {
            let better = if v > best.0 {
                (v, Some(moves[i]))
            } else {
                best
            };
            let raised = if v > alpha {
                v
            } else {
                alpha
            };
            if raised < beta {
                lemma_best_asks(s, hash, moves, i + 1, below, raised, beta, better, color, ply, after, oracle);
                let r = model::best_move(s, hash, moves, i + 1, below, raised, beta, better, color, ply, after, oracle);
                lemma_goes_on(st.asks, after.asks, r.1.asks);
            }
        }
    }
}

proof fn lemma_goes_on(a: Seq<model::Ask>, b: Seq<model::Ask>, c: Seq<model::Ask>)
    requires
        goes_on(a, b),
        goes_on(b, c),
    ensures
        goes_on(a, c),
{
    assert forall|i: int| 0 <= i < a.len() implies c[i] == #[trigger] a[i] by {
        assert(b[i] == a[i]);
    }
}

proof fn lemma_after_asks(
    s: rules::Cells,
    hash: u64,
    mv: Position,
    full: bool,
    below: nat,
    alpha: int,
    beta: int,
    color: Piece,
    ply: nat,
    st: model::State,
    oracle: Seq<bool>,
)
    ensures
        asks_on(st, model::after_move(s, hash, mv, full, below, alpha, beta, color, ply, st, oracle), oracle),
    decreases below + 1, 0int, 0int,
{
    let t = rules::put(s, mv, color);
    let key = hash ^ rules::stone_key(mv, color);
    let opponent = rules::other(color);
    if !rules::would_win(s, mv, color) {
        if full {
            lemma_node_asks(t, key, below, -beta, -alpha, opponent, ply + 1, st, oracle);
        } else {
            lemma_node_asks(t, key, below, -alpha - 1, -alpha, opponent, ply + 1, st, oracle);
            let (value, after) = model::negated(
                model::node(t, key, below, -alpha - 1, -alpha, opponent, ply + 1, st, oracle),
            );
            if let Some(v) = value {
                if alpha < v < beta {
                    lemma_node_asks(t, key, below, -beta, -alpha, opponent, ply + 1, after, oracle);
                    let r = model::node(t, key, below, -beta, -alpha, opponent, ply + 1, after, oracle);
                    lemma_goes_on(st.asks, after.asks, r.1.asks);
                }
            }
        }
    }
}

proof fn lemma_root_asks(
    s: rules::Cells,
    hash: u64,
    moves: Seq<Position>,
    i: int,
    depth: nat,
    alpha: int,
    done: Depth,
    color: Piece,
    st: model::State,
    oracle: Seq<bool>,
)
    ensures
        asks_on(st, model::root_moves(s, hash, moves, i, depth, alpha, done, color, st, oracle), oracle),
    decreases moves.len() - i,
{
    if 0 <= i < moves.len() && !model::says(st, oracle) && !rules::would_win(s, moves[i], color) {
        let asked = model::asked(st, model::Ask::TimeUp);
        let first = i == 0 || depth == 1;
        let below = (depth - 1) as nat;
        lemma_after_asks(s, hash, moves[i], first, below, alpha, 536_870_911, color, 0, asked, oracle);
        let (value, after) = model::after_move(
            s,
            hash,
            moves[i],
            first,
            below,
            alpha,
            536_870_911,
            color,
            0,
            asked,
            oracle,
        );
        assert(goes_on(st.asks, asked.asks));
        lemma_goes_on(st.asks, asked.asks, after.asks);
        if let Some(v) = value {
            let next = Depth {
                best: if done.best is Some && (done.best->0).1 >= v {
                    done.best
                } else {
                    Some((moves[i], v, model::search_reason(v)))
                },
                scores: done.scores.push((moves[i], v as i32)),
            };
            let raised = if v > alpha {
                v
            } else {
                alpha
            };
            lemma_root_asks(s, hash, moves, i + 1, depth, raised, next, color, after, oracle);
            let r = model::root_moves(s, hash, moves, i + 1, depth, raised, next, color, after, oracle);
            lemma_goes_on(st.asks, after.asks, r.1.asks);
        }
    }
}

/// Deepening asks whether the time is up first, and ends below the greatest depth only where it is.
proof fn lemma_deepened_asks(
    s: rules::Cells,
    hash: u64,
    moves: Seq<Position>,
    depth: nat,
    best: super::Choice,
    color: Piece,
    st: model::State,
    oracle: Seq<bool>,
)
    requires
        depth <= 17,
        moves.len() > 0,
        are_candidates(s, moves),
    ensures
        ({
            let told = model::reports(s, hash, moves, depth, color, st, oracle);
            let after = model::deepened(s, hash, moves, depth, best, color, st, oracle).1;
            &&& goes_on(st.asks, after.asks)
            &&& depth <= 16 ==> after.asks.len() > st.asks.len() && after.asks[st.asks.len() as int]
                == model::Ask::TimeUp
            &&& told.len() > 0 ==> !oracle[st.asks.len() as int]
            &&& told.len() < 17 - depth ==> broken_off(after, oracle)
        }),
    decreases 17 - depth,
{
    if depth <= 16 && !model::says(st, oracle) {
        let from = model::asked(st, model::Ask::TimeUp);
        let entry = model::entry_move(table::probed(from.slots, hash));
        let tried = model::promoted(moves, entry);
        let none = Depth { best: None, scores: Seq::empty() };
        lemma_promoted_are_candidates(s, moves, entry);
        lemma_root_moves(s, hash, tried, 0, depth, rules::no_score(), none, color, from, oracle);
        lemma_root_asks(s, hash, tried, 0, depth, rules::no_score(), none, color, from, oracle);
        let (found, after) = model::whole_depth(s, hash, moves, depth, color, from, oracle);
        assert(goes_on(st.asks, from.asks));
        lemma_goes_on(st.asks, from.asks, after.asks);
        assert(after.asks[st.asks.len() as int] == from.asks[st.asks.len() as int]);
        if let Some(d) = found {
            let b = d.best->0;
            lemma_deepened_asks(s, hash, moves, depth + 1, b, color, after, oracle);
            let r = model::deepened(s, hash, moves, depth + 1, b, color, after, oracle);
            lemma_goes_on(st.asks, after.asks, r.1.asks);
            assert(r.1.asks[st.asks.len() as int] == after.asks[st.asks.len() as int]);
        }
    }
}

/// What a search that deepens asks of the time.
#[verifier::spinoff_prover]
#[verifier::rlimit(40)]
proof fn lemma_searched_asks(s: rules::Cells, hash: u64, color: Piece, slots: table::Slots, oracle: Seq<bool>)
    requires
        rules::is_cells(s),
    ensures
        is_at_once(model::searched(s, hash, color, slots, oracle)) || ({
            let m = model::searched(s, hash, color, slots, oracle);
            &&& m.asks.len() > 2
            &&& m.asks[2] == model::Ask::TimeUp
            &&& m.reports.len() > 0 ==> !oracle[2]
            &&& m.reports.len() < 16 ==> m.asks.last() == model::Ask::TimeUp && oracle[m.asks.len() - 1]
        }),
{
    let m = model::searched(s, hash, color, slots, oracle);
    let moves = lemma_deepens(s, hash, color, slots, oracle);
    if !is_at_once(m) {
        let seed = (moves[0], super::value(s, color, moves[0]), "greedy"@);
        let start = model::fresh(slots, model::early_asks(s, color));
        assert(start.asks.len() == 2);
        lemma_deepened_asks(s, hash, moves, 1, seed, color, start, oracle);
    }
}

/// A search goes on as long as it may: it ends before it has searched 16 depths only where it plays a
/// forced win at once, or there is no move, or the deadline has come or the flag is set. And it has
/// searched a depth only where there was time left.
pub proof fn law_search_goes_on_until_its_limits(
    s: rules::Cells,
    hash: u64,
    color: Piece,
    slots: table::Slots,
    deadline: Instant,
    cancel: &AtomicBool,
    r: Option<(Position, i32, String)>,
    after: table::Slots,
    reports: Seq<Report>,
)
    requires
        rules::is_cells(s),
        search::may_find(s, hash, color, slots, deadline, cancel, r, after, reports),
    ensures
        reports.len() < 16 ==> (r matches Some(c) ==> c.2@ == "vcf forced win"@ || clock::limits_say(
            deadline,
            cancel,
            true,
        )),
        reports.len() > 0 ==> clock::limits_say(deadline, cancel, false),
{
    reveal(search::may_find);
    reveal(search::heard);
    let (oracle, early) = choose|oracle: Seq<bool>, early: Instant| #[trigger]
        search::in_time(model::searched(s, hash, color, slots, oracle), oracle, deadline, cancel, early)
            && search::is_search(model::searched(s, hash, color, slots, oracle), r, after) && reports
            == model::searched(s, hash, color, slots, oracle).reports;
    lemma_searched_asks(s, hash, color, slots, oracle);
    let asks = model::searched(s, hash, color, slots, oracle).asks;
    if asks.len() > 2 {
        assert(search::answers_ask(asks[2], oracle[2], deadline, cancel, early));
        assert(search::answers_ask(asks[asks.len() - 1], oracle[asks.len() - 1], deadline, cancel, early));
    }
}

/// A search that has to begin after its deadline still returns a move: the candidate worth most, the
/// greedy move. It tells nothing.
pub proof fn law_search_too_late_is_greedy(
    s: rules::Cells,
    hash: u64,
    color: Piece,
    slots: table::Slots,
    deadline: Instant,
    cancel: &AtomicBool,
    r: Option<(Position, i32, String)>,
    after: table::Slots,
    reports: Seq<Report>,
)
    requires
        rules::is_cells(s),
        rules::stones(s) < 324,
        search::may_find(s, hash, color, slots, deadline, cancel, r, after, reports),
        clock::has_passed(deadline),
    ensures
        r matches Some(c) && {
            &&& rules::candidates(s).contains(c.0)
            &&& c.1 == super::value(s, color, c.0)
            &&& c.2@ == "greedy"@
            &&& forall|q: Position| #[trigger] rules::candidates(s).contains(q) ==> super::value(s, color, q) <= c.1
        },
        reports == Seq::<Report>::empty(),
        after == slots,
{
    reveal(search::may_find);
    reveal(search::heard);
    let (oracle, early) = choose|oracle: Seq<bool>, early: Instant| #[trigger]
        search::in_time(model::searched(s, hash, color, slots, oracle), oracle, deadline, cancel, early)
            && search::is_search(model::searched(s, hash, color, slots, oracle), r, after) && reports
            == model::searched(s, hash, color, slots, oracle).reports;
    clock::lemma_has_passed(deadline, 200, early);
    crate::laws::law_candidates_until_full(s);
    let m = model::searched(s, hash, color, slots, oracle);
    lemma_early_asks(s, hash, color, slots, oracle);
    assert(search::answers_ask(m.asks[0], oracle[0], deadline, cancel, early));
    lemma_cut_short(s, color, 40, oracle[0]);
    assert(search::answers_ask(m.asks[1], oracle[1], deadline, cancel, early));
    lemma_cut_short(s, rules::other(color), 40, oracle[1]);
    assert(search::answers_ask(m.asks[2], oracle[2], deadline, cancel, early));
    lemma_found_greedy(s, hash, color, slots, oracle);
    lemma_greedy_first(s, color);
}

/// A look ahead that does not end by itself finds nothing.
proof fn lemma_cut_short(s: rules::Cells, attacker: Piece, max_depth: int, cut: bool)
    requires
        vcf::vcf_asks(s, attacker, max_depth) > 0 ==> cut,
    ensures
        model::timed_win(cut, vcf::vcf_win(s, attacker, max_depth)) is None,
{
}

/// Where the looks ahead find nothing and the time is up, the greedy move is found.
proof fn lemma_found_greedy(s: rules::Cells, hash: u64, color: Piece, slots: table::Slots, oracle: Seq<bool>)
    requires
        rules::candidates(s).len() > 0,
        model::timed_win(oracle[0], vcf::vcf_win(s, color, 40)) is None,
        model::timed_win(oracle[1], vcf::vcf_win(s, rules::other(color), 40)) is None,
        oracle[2],
    ensures
        ({
            let m = model::searched(s, hash, color, slots, oracle);
            let first = model::root_candidates(s, color, None)[0];
            &&& m.found == Some((first, super::value(s, color, first), "greedy"@))
            &&& m.slots == slots
            &&& m.reports == Seq::<Report>::empty()
        }),
{
    reveal(model::searched);
    let start = model::fresh(slots, model::early_asks(s, color));
    assert(model::says(start, oracle));
}

/// The first questions of a search: the looks ahead, and whether the time is up.
#[verifier::spinoff_prover]
#[verifier::rlimit(40)]
proof fn lemma_early_asks(s: rules::Cells, hash: u64, color: Piece, slots: table::Slots, oracle: Seq<bool>)
    requires
        rules::is_cells(s),
        rules::candidates(s).len() > 0,
    ensures
        ({
            let m = model::searched(s, hash, color, slots, oracle);
            &&& m.asks.len() > 0
            &&& m.asks[0] == model::look_ask(true, s, color, 40)
            &&& model::timed_win(oracle[0], vcf::vcf_win(s, color, 40)) is None ==> {
                &&& m.asks.len() > 2
                &&& m.asks[1] == model::look_ask(true, s, rules::other(color), 40)
                &&& m.asks[2] == model::Ask::TimeUp
            }
        }),
{
    let own = model::timed_win(oracle[0], vcf::vcf_win(s, color, 40));
    let block = model::timed_win(oracle[1], vcf::vcf_win(s, rules::other(color), 40));
    if own is None {
        lemma_forced_win_is_candidate(s, rules::other(color), 40);
        lemma_root_candidates(s, color, block);
        let moves = model::root_candidates(s, color, block);
        let seed = (moves[0], super::value(s, color, moves[0]), "greedy"@);
        let start = model::fresh(slots, model::early_asks(s, color));
        lemma_deepened_asks(s, hash, moves, 1, seed, color, start, oracle);
        let asks = model::deepened(s, hash, moves, 1, seed, color, start, oracle).1.asks;
        assert(asks[0] == start.asks[0] && asks[1] == start.asks[1]);
    }
    reveal(model::searched);
}

/// The first move of the root, where nothing has to be blocked, is the candidate worth most.
proof fn lemma_greedy_first(s: rules::Cells, color: Piece)
    requires
        rules::is_cells(s),
        rules::candidates(s).len() > 0,
    ensures
        ({
            let first = model::root_candidates(s, color, None)[0];
            &&& rules::candidates(s).contains(first)
            &&& forall|q: Position| #[trigger]
                rules::candidates(s).contains(q) ==> super::value(s, color, q) <= super::value(s, color, first)
        }),
{
    let all = rules::candidates(s);
    let key = super::by_worth(s, color);
    let ranked = ranking::ranked(all, key);
    ranking::lemma_ranked(all, key);
    assert(ranked.contains(ranked[0]));
    assert forall|q: Position| #[trigger] all.contains(q) implies super::value(s, color, q) <= super::value(
        s,
        color,
        ranked[0],
    ) by {
        assert(ranked.contains(q));
        let k = choose|k: int| 0 <= k < ranked.len() && ranked[k] == q;
        assert(key(ranked[0]) >= key(ranked[k]));
    }
}

/// The early looks are not cut short: no reading of the clock comes after the time until which they go on.
pub open spec fn has_time_to_look(deadline: Instant) -> bool {
    forall|early: Instant| #[trigger] clock::is_soon(200, deadline, early) ==> !clock::clock_says(early, true)
}

/// Where there is time to look, a search plays a win by at most twenty fours of ours at once; where only the
/// opponent has one, and no depth can be searched, it plays on the cell on which that one begins.
pub proof fn law_search_plays_or_stops_a_forced_win(
    s: rules::Cells,
    hash: u64,
    color: Piece,
    slots: table::Slots,
    deadline: Instant,
    cancel: &AtomicBool,
    r: Option<(Position, i32, String)>,
    after: table::Slots,
    reports: Seq<Report>,
)
    requires
        rules::is_cells(s),
        rules::stones(s) < 324,
        search::may_find(s, hash, color, slots, deadline, cancel, r, after, reports),
        has_time_to_look(deadline),
    ensures
        fours::wins_by_fours(s, color, 20) ==> (r matches Some(c) && fours::begins_fours(s, color, c.0, 20) && c.1
            == 999_999 && c.2@ == "vcf forced win"@) && reports.len() == 0 && after == slots,
        !fours::wins_by_fours(s, color, 20) && fours::wins_by_fours(s, rules::other(color), 20) && reports.len() == 0
            ==> (r matches Some(c) && fours::begins_fours(s, rules::other(color), c.0, 20) && c.2@ == "greedy"@),
{
    reveal(search::may_find);
    reveal(search::heard);
    let (oracle, early) = choose|oracle: Seq<bool>, early: Instant| #[trigger]
        search::in_time(model::searched(s, hash, color, slots, oracle), oracle, deadline, cancel, early)
            && search::is_search(model::searched(s, hash, color, slots, oracle), r, after) && reports
            == model::searched(s, hash, color, slots, oracle).reports;
    crate::laws::law_candidates_until_full(s);
    let m = model::searched(s, hash, color, slots, oracle);
    assert(!clock::clock_says(early, true));
    lemma_early_asks(s, hash, color, slots, oracle);
    assert(search::answers_ask(m.asks[0], oracle[0], deadline, cancel, early));
    super::choice_laws::lemma_forced(s, color);
    super::choice_laws::lemma_forced(s, rules::other(color));
    if vcf::vcf_win(s, color, 40) is None && vcf::vcf_win(s, rules::other(color), 40) is Some {
        assert(search::answers_ask(m.asks[1], oracle[1], deadline, cancel, early));
        if reports.len() == 0 {
            lemma_found_block(s, hash, color, slots, oracle);
        }
    } else if vcf::vcf_win(s, color, 40) is Some {
        lemma_found_own_win(s, hash, color, slots, oracle);
    }
}

proof fn lemma_found_own_win(s: rules::Cells, hash: u64, color: Piece, slots: table::Slots, oracle: Seq<bool>)
    requires
        vcf::vcf_win(s, color, 40) is Some,
        !oracle[0],
    ensures
        ({
            let m = model::searched(s, hash, color, slots, oracle);
            &&& m.found == Some((vcf::vcf_win(s, color, 40)->0, 999_999int, "vcf forced win"@))
            &&& m.slots == slots
            &&& m.reports.len() == 0
        }),
{
    reveal(model::searched);
}

proof fn lemma_found_block(s: rules::Cells, hash: u64, color: Piece, slots: table::Slots, oracle: Seq<bool>)
    requires
        rules::is_cells(s),
        rules::candidates(s).len() > 0,
        vcf::vcf_win(s, color, 40) is None,
        vcf::vcf_win(s, rules::other(color), 40) is Some,
        !oracle[1],
        model::searched(s, hash, color, slots, oracle).reports.len() == 0,
    ensures
        ({
            let m = model::searched(s, hash, color, slots, oracle);
            m.found matches Some(c) && c.0 == vcf::vcf_win(s, rules::other(color), 40)->0 && c.2 == "greedy"@
        }),
{
    let block = vcf::vcf_win(s, rules::other(color), 40);
    lemma_forced_win_is_candidate(s, rules::other(color), 40);
    lemma_root_candidates(s, color, block);
    super::value_laws::law_root_tries_what_is_worth_most(s, color, block);
    let moves = model::root_candidates(s, color, block);
    let seed = (moves[0], super::value(s, color, moves[0]), "greedy"@);
    let start = model::fresh(slots, model::early_asks(s, color));
    reveal(model::searched);
    lemma_reports(s, hash, moves, 1, seed, color, start, oracle);
}

} // verus!
