//! Why the values of the search can be trusted: what it finds in a window is the true value there, or a
//! bound of it.
use vstd::prelude::*;

use crate::board::{Piece, Position};
use crate::laws;
use crate::ranking;
use crate::rules;
use crate::transposition_table as table;
use crate::transposition_table::TTEntry;

use super::fours;
use super::search;
use super::search_model as model;
use super::vcf;

verus! {

/// `found` is what a search in the window from `alpha` to `beta` may find where `truth` is true: what lies
/// within is true, what lies at or below `alpha` is no less than the truth, and what lies at or above
/// `beta` is no more.
pub open spec fn fits(found: int, alpha: int, beta: int, truth: int) -> bool {
    &&& found <= alpha ==> truth <= found
    &&& found >= beta ==> truth >= found
    &&& alpha < found < beta ==> truth == found
}

/// What a table entry says of the truth: the score itself, or that the truth is no less, or no more.
pub open spec fn says_true(flag: u8, score: int, truth: int) -> bool {
    &&& flag == table::TT_FLAG_EXACT ==> truth == score
    &&& flag == table::TT_FLAG_LOWER ==> truth >= score
    &&& flag == table::TT_FLAG_UPPER ==> truth <= score
}

/// The three sorts of results are different.
pub proof fn law_flags_are_different()
    ensures
        table::TT_FLAG_EXACT != table::TT_FLAG_LOWER,
        table::TT_FLAG_EXACT != table::TT_FLAG_UPPER,
        table::TT_FLAG_LOWER != table::TT_FLAG_UPPER,
{
}

/// What is kept of a value that fits its window is true.
pub proof fn law_kept_values_are_true(found: int, alpha: int, beta: int, truth: int)
    requires
        fits(found, alpha, beta, truth),
    ensures
        says_true(model::bound_flag(found, alpha, beta), found, truth),
        model::bound_flag(found, alpha, beta) == table::TT_FLAG_EXACT <==> alpha < found < beta,
{
}

/// A true entry answers with a value that fits the window, and only where it was searched deep enough;
/// where it does not answer, whatever fits the window that it leaves fits the one that was asked for.
pub proof fn law_true_entries_answer_truly(e: TTEntry, depth: nat, alpha: int, beta: int, truth: int, found: int)
    requires
        says_true(e.flag, e.score as int, truth),
        alpha < beta,
    ensures
        ({
            let w = model::window(Some(e), depth, alpha, beta);
            &&& w.answer matches Some(v) ==> e.depth >= depth && (fits(v, alpha, beta, truth) || v == e.score && (
            e.flag == table::TT_FLAG_LOWER && v >= beta || e.flag == table::TT_FLAG_UPPER && v <= alpha))
            &&& w.answer is None && fits(found, w.alpha, w.beta, truth) ==> {
                &&& found >= beta ==> truth >= beta || truth >= found
                &&& found <= alpha ==> truth <= alpha || truth <= found
                &&& alpha < truth < beta && w.alpha < truth < w.beta ==> found == truth
            }
            &&& e.depth < depth ==> w.answer is None && w.alpha == alpha && w.beta == beta
            &&& e.depth >= depth && e.flag == table::TT_FLAG_EXACT ==> w.answer == Some(truth)
            &&& e.depth >= depth && e.flag == table::TT_FLAG_LOWER && truth >= e.score && e.score >= beta ==> w.answer
                == Some(e.score as int)
            &&& e.depth >= depth && e.flag == table::TT_FLAG_UPPER && truth <= e.score && e.score <= alpha ==> w.answer
                == Some(e.score as int)
            &&& alpha <= w.alpha && w.beta <= beta
        }),
{
}

/// Without an entry the whole window is searched.
pub proof fn law_no_entry_leaves_the_window(depth: nat, alpha: int, beta: int)
    ensures
        model::window(None, depth, alpha, beta).answer is None,
        model::window(None, depth, alpha, beta).alpha == alpha,
        model::window(None, depth, alpha, beta).beta == beta,
{
}

/// Whatever window and state they are searched with, the replies to `mv` have values that fit `truth`: what
/// the position is worth to the opponent, who is to move then.
pub open spec fn replies_fit(
    s: rules::Cells,
    hash: u64,
    mv: Position,
    below: nat,
    color: Piece,
    ply: nat,
    oracle: Seq<bool>,
    truth: int,
) -> bool {
    forall|alpha: int, beta: int, st: model::State|
        (#[trigger] model::node(
            rules::put(s, mv, color),
            hash ^ rules::stone_key(mv, color),
            below,
            alpha,
            beta,
            rules::other(color),
            ply + 1,
            st,
            oracle,
        )).0 matches Some(v) ==> fits(v, alpha, beta, truth)
}

/// A move that makes five is worth a million. Any other is worth what the position after it costs the
/// opponent, in whatever window it is asked for.
pub proof fn law_a_move_is_worth_what_it_costs_the_opponent(
    s: rules::Cells,
    hash: u64,
    mv: Position,
    full: bool,
    below: nat,
    alpha: int,
    beta: int,
    color: Piece,
    ply: nat,
    st: model::State,
    oracle: Seq<bool>,
    truth: int,
)
    requires
        alpha < beta,
        replies_fit(s, hash, mv, below, color, ply, oracle, truth),
    ensures
        rules::would_win(s, mv, color) ==> model::after_move(
            s,
            hash,
            mv,
            full,
            below,
            alpha,
            beta,
            color,
            ply,
            st,
            oracle,
        ).0 == Some(1_000_000int),
        !rules::would_win(s, mv, color) ==> (model::after_move(
            s,
            hash,
            mv,
            full,
            below,
            alpha,
            beta,
            color,
            ply,
            st,
            oracle,
        ).0 matches Some(v) ==> fits(v, alpha, beta, -truth)),
{
    let t = rules::put(s, mv, color);
    let key = hash ^ rules::stone_key(mv, color);
    let opponent = rules::other(color);
    let whole = model::node(t, key, below, -beta, -alpha, opponent, ply + 1, st, oracle);
    let narrow = model::node(t, key, below, -alpha - 1, -alpha, opponent, ply + 1, st, oracle);
    let again = model::node(t, key, below, -beta, -alpha, opponent, ply + 1, narrow.1, oracle);
    assert(whole.0 matches Some(v) ==> fits(v, -beta, -alpha, truth));
    assert(narrow.0 matches Some(v) ==> fits(v, -alpha - 1, -alpha, truth));
    assert(again.0 matches Some(v) ==> fits(v, -beta, -alpha, truth));
}

/// Each of `moves` has the true value that `truth` gives it: whatever window and state it is tried with, it
/// has a value that fits.
pub open spec fn moves_fit(
    s: rules::Cells,
    hash: u64,
    moves: Seq<Position>,
    below: nat,
    color: Piece,
    ply: nat,
    oracle: Seq<bool>,
    truth: spec_fn(int) -> int,
) -> bool {
    forall|i: int, full: bool, alpha: int, beta: int, st: model::State|
        0 <= i < moves.len() ==> ((#[trigger] model::after_move(
            s,
            hash,
            moves[i],
            full,
            below,
            alpha,
            beta,
            color,
            ply,
            st,
            oracle,
        )).0 matches Some(v) ==> alpha < beta ==> fits(v, alpha, beta, truth(i)) && v > rules::no_score())
}

/// `v` is the greatest of the true values from place `i` on, and `best`.
pub open spec fn is_greatest(truth: spec_fn(int) -> int, n: int, v: int) -> bool {
    &&& forall|i: int| 0 <= i < n ==> #[trigger] truth(i) <= v
    &&& exists|i: int| 0 <= i < n && #[trigger] truth(i) == v
}

proof fn lemma_best_move(
    s: rules::Cells,
    hash: u64,
    moves: Seq<Position>,
    i: int,
    below: nat,
    alpha0: int,
    alpha: int,
    beta: int,
    best: (int, Option<Position>),
    color: Piece,
    ply: nat,
    st: model::State,
    oracle: Seq<bool>,
    truth: spec_fn(int) -> int,
    greatest: int,
)
    requires
        0 <= i <= moves.len(),
        moves_fit(s, hash, moves, below, color, ply, oracle, truth),
        is_greatest(truth, moves.len() as int, greatest),
        alpha0 <= alpha < beta,
        rules::no_score() <= best.0 <= alpha,
        best.0 > alpha0 ==> best.0 == alpha,
        best.0 <= alpha0 ==> alpha == alpha0,
        forall|j: int| 0 <= j < i ==> #[trigger] truth(j) <= best.0,
        best.0 > alpha0 ==> exists|j: int| 0 <= j < i && #[trigger] truth(j) == best.0,
        best.1 matches Some(p) ==> moves.contains(p),
    ensures
        model::best_move(s, hash, moves, i, below, alpha, beta, best, color, ply, st, oracle).0 matches Some(b) ==> fits(
            b.0,
            alpha0,
            beta,
            greatest,
        ) && (b.1 matches Some(p) ==> moves.contains(p)),
    decreases moves.len() - i,
{
    if i < moves.len() {
        let r = model::after_move(s, hash, moves[i], i == 0, below, alpha, beta, color, ply, st, oracle);
        if let Some(v) = r.0 {
            assert(fits(v, alpha, beta, truth(i)) && v > rules::no_score());
            let better = if v > best.0 {
                (v, Some(moves[i]))
            } else {
                best
            };
            let raised = if v > alpha {
                v
            } else {
                alpha
            };
            assert(truth(i) <= greatest);
            if raised < beta {
                assert(forall|j: int| 0 <= j < i + 1 ==> #[trigger] truth(j) <= better.0);
                if better.0 > alpha0 && best.0 > alpha0 && v <= best.0 {
                    let j = choose|j: int| 0 <= j < i && #[trigger] truth(j) == best.0;
                    assert(truth(j) == better.0);
                }
                lemma_best_move(
                    s,
                    hash,
                    moves,
                    i + 1,
                    below,
                    alpha0,
                    raised,
                    beta,
                    better,
                    color,
                    ply,
                    r.1,
                    oracle,
                    truth,
                    greatest,
                );
            }
        }
    } else {
        let k = choose|k: int| 0 <= k < moves.len() && #[trigger] truth(k) == greatest;
        if best.0 > alpha0 {
            let j = choose|j: int| 0 <= j < i && #[trigger] truth(j) == best.0;
            assert(truth(j) <= greatest);
        }
    }
}

/// A node is worth the greatest of what its moves are worth: what is found of it fits the window that it
/// was asked for, and the move that goes with it is one of them. Leaving out the rest of the moves once
/// one reaches `beta` does no harm.
pub proof fn law_a_node_is_worth_its_best_move(
    s: rules::Cells,
    hash: u64,
    moves: Seq<Position>,
    below: nat,
    alpha: int,
    beta: int,
    color: Piece,
    ply: nat,
    st: model::State,
    oracle: Seq<bool>,
    truth: spec_fn(int) -> int,
    greatest: int,
)
    requires
        moves_fit(s, hash, moves, below, color, ply, oracle, truth),
        is_greatest(truth, moves.len() as int, greatest),
        rules::no_score() <= alpha < beta,
    ensures
        model::best_move(
            s,
            hash,
            moves,
            0,
            below,
            alpha,
            beta,
            (rules::no_score(), None),
            color,
            ply,
            st,
            oracle,
        ).0 matches Some(b) ==> fits(b.0, alpha, beta, greatest) && (b.1 matches Some(p) ==> moves.contains(p)),
{
    let none: (int, Option<Position>) = (rules::no_score(), None);
    lemma_best_move(s, hash, moves, 0, below, alpha, alpha, beta, none, color, ply, st, oracle, truth, greatest);
}

/// The rank of a move in the order in which moves are tried: 5 makes five, 4 takes the cell of the
/// opponent's five, 3 is the move of the table, 2 and 1 have refuted something at this ply, 0 is any
/// other.
pub open spec fn rank(
    s: rules::Cells,
    color: Piece,
    killers: model::Killers,
    table_move: Option<Position>,
    p: Position,
) -> int {
    if rules::would_win(s, p, color) {
        5
    } else if rules::would_win(s, p, rules::other(color)) {
        4
    } else if table_move == Some(p) {
        3
    } else if killers.first == Some(p) {
        2
    } else if killers.second == Some(p) {
        1
    } else {
        0
    }
}

/// The moves of a node are all its candidates. They are tried by falling rank, and those of the lowest rank
/// by what they score for both players and by their history, as long as that is no more than a million.
#[verifier::spinoff_prover]
#[verifier::rlimit(40)]
pub proof fn law_moves_are_tried_by_rank(
    s: rules::Cells,
    color: Piece,
    ply: nat,
    st: model::State,
    table_move: Option<Position>,
    i: int,
    j: int,
)
    requires
        rules::is_cells(s),
        0 <= i < j < model::ordered(s, color, ply, st, table_move).len(),
        forall|k: int| 0 <= k < 324 ==> -1_000_000 <= #[trigger] st.history[k] <= 1_000_000,
    ensures
        ({
            let moves = model::ordered(s, color, ply, st, table_move);
            let killers = model::killers_at(st, ply);
            let a = moves[i];
            let b = moves[j];
            let first = rank(s, color, killers, table_move, a);
            let second = rank(s, color, killers, table_move, b);
            &&& moves.to_multiset() == rules::candidates(s).to_multiset()
            &&& first >= second
            &&& first == 0 && second == 0 ==> rules::score(s, a, Piece::Black) + rules::score(s, a, Piece::White)
                + st.history[18 * a.row + a.column] >= rules::score(s, b, Piece::Black) + rules::score(s, b, Piece::White)
                + st.history[18 * b.row + b.column]
        }),
{
    let killers = model::killers_at(st, ply);
    let key = model::by_order(s, color, killers, st.history, table_move);
    let moves = model::ordered(s, color, ply, st, table_move);
    ranking::lemma_ranked(rules::candidates(s), key);
    laws::law_candidates(s);
    let a = moves[i];
    let b = moves[j];
    assert(moves.contains(a) && moves.contains(b));
    assert(key(a) >= key(b));
    rules::law_million_means_five(s, a, color);
    rules::law_million_means_five(s, a, rules::other(color));
    rules::law_million_means_five(s, b, color);
    rules::law_million_means_five(s, b, rules::other(color));
    assert(-1_000_000 <= st.history[rules::index(a)] <= 1_000_000);
    assert(-1_000_000 <= st.history[rules::index(b)] <= 1_000_000);
}

/// Of the moves of a node the first 15 are tried where the first one scores 50000 or more, and else the
/// first 7.
pub proof fn law_few_moves_are_tried(s: rules::Cells, color: Piece, moves: Seq<Position>)
    requires
        moves.len() > 0,
    ensures
        ({
            let tried = model::limited(s, color, moves);
            let most: nat = if rules::score(s, moves[0], color) >= 50_000 {
                15
            } else {
                7
            };
            &&& tried.len() <= most
            &&& tried.len() == moves.len() || tried.len() == most && moves.len() > most
            &&& forall|i: int| 0 <= i < tried.len() ==> #[trigger] tried[i] == moves[i]
        }),
{
}

/// Where nothing has to be blocked, the root tries the 15 candidates worth most, all of them where there
/// are no more, the best first. A block comes before all of them.
pub proof fn law_root_tries_what_is_worth_most(s: rules::Cells, color: Piece, block: Option<Position>)
    requires
        rules::is_cells(s),
        rules::candidates(s).len() > 0,
        block matches Some(p) ==> rules::candidates(s).contains(p),
    ensures
        ({
            let moves = model::root_candidates(s, color, block);
            let all = rules::candidates(s);
            &&& block matches Some(p) ==> moves[0] == p
            &&& moves.len() <= 16
            &&& block is None ==> moves.len() == if all.len() <= 15 {
                all.len()
            } else {
                15
            }
            &&& moves.len() >= if all.len() <= 15 {
                all.len()
            } else {
                15
            }
            &&& forall|i: int| 0 <= i < moves.len() ==> all.contains(#[trigger] moves[i])
            &&& forall|q: Position, i: int| #[trigger]
                all.contains(q) && !moves.contains(q) && 0 <= i < moves.len() && block != Some(moves[i]) ==> super::value(
                    s,
                    color,
                    q,
                ) <= super::value(s, color, #[trigger] moves[i])
            &&& block is None ==> forall|i: int, j: int|
                0 <= i < j < moves.len() ==> super::value(s, color, #[trigger] moves[i]) >= super::value(
                    s,
                    color,
                    #[trigger] moves[j],
                )
        }),
{
    let all = rules::candidates(s);
    let key = super::by_worth(s, color);
    let moves = model::root_candidates(s, color, block);
    lemma_root(all, key, block, moves);
    assert forall|q: Position, i: int| #[trigger]
        all.contains(q) && !moves.contains(q) && 0 <= i < moves.len() && block != Some(moves[i]) implies super::value(
        s,
        color,
        q,
    ) <= super::value(s, color, #[trigger] moves[i]) by {
        assert(key(q) <= key(moves[i]));
    }
    if block is None {
        assert forall|i: int, j: int| 0 <= i < j < moves.len() implies super::value(s, color, #[trigger] moves[i])
            >= super::value(s, color, #[trigger] moves[j]) by {
            assert(key(moves[i]) >= key(moves[j]));
        }
    }
}

/// The best 15 by some key, with a block in front.
proof fn lemma_root(all: Seq<Position>, key: spec_fn(Position) -> int, block: Option<Position>, moves: Seq<Position>)
    requires
        ({
            let ranked = ranking::ranked(all, key);
            with_block(
                if ranked.len() <= 15 {
                    ranked
                } else {
                    ranked.take(15)
                },
                block,
                moves,
            )
        }),
        all.len() > 0,
        block matches Some(p) ==> all.contains(p),
    ensures
        block matches Some(p) ==> moves[0] == p,
        moves.len() <= 16,
        block is None ==> moves.len() == if all.len() <= 15 {
            all.len()
        } else {
            15
        },
        moves.len() >= if all.len() <= 15 {
            all.len()
        } else {
            15
        },
        forall|i: int| 0 <= i < moves.len() ==> all.contains(#[trigger] moves[i]),
        forall|q: Position, i: int| #[trigger]
            all.contains(q) && !moves.contains(q) && 0 <= i < moves.len() && block != Some(moves[i]) ==> key(q) <= key(
                #[trigger] moves[i],
            ),
        block is None ==> forall|i: int, j: int|
            0 <= i < j < moves.len() ==> key(#[trigger] moves[i]) >= key(#[trigger] moves[j]),
{
    let ranked = ranking::ranked(all, key);
    ranking::lemma_ranked(all, key);
    let best = if ranked.len() <= 15 {
        ranked
    } else {
        ranked.take(15)
    };
    if let Some(p) = block {
        search::lemma_place_of(best, p, 0);
    }
    assert forall|i: int| 0 <= i < best.len() implies all.contains(#[trigger] best[i]) by {
        assert(ranked.contains(ranked[i]));
    }
    assert forall|k: int| 0 <= k < best.len() implies moves.contains(#[trigger] best[k]) by {
        lemma_best_stays(best, block, moves, k);
    }
    assert forall|i: int| 0 <= i < moves.len() implies all.contains(#[trigger] moves[i]) by {
        lemma_from_best(best, block, moves, i);
    }
    assert forall|q: Position, i: int| #[trigger]
        all.contains(q) && !moves.contains(q) && 0 <= i < moves.len() && block != Some(moves[i]) implies key(q) <= key(
        #[trigger] moves[i],
    ) by {
        assert(ranked.contains(q));
        let a = choose|a: int| 0 <= a < ranked.len() && ranked[a] == q;
        if a < best.len() {
            assert(best[a] == q);
        }
        lemma_from_best(best, block, moves, i);
        let k = choose|k: int| 0 <= k < best.len() && best[k] == moves[i];
        assert(key(ranked[k]) >= key(ranked[a]));
    }
    if block is None {
        assert forall|i: int, j: int| 0 <= i < j < moves.len() implies key(#[trigger] moves[i]) >= key(
            #[trigger] moves[j],
        ) by {
            assert(key(ranked[i]) >= key(ranked[j]));
        }
    }
}

/// `moves` are `best` with the block in front.
spec fn with_block(best: Seq<Position>, block: Option<Position>, moves: Seq<Position>) -> bool {
    moves == match block {
        Some(p) => match model::place_of(best, p, 0) {
            Some(_) => model::promoted(best, block),
            None => seq![p] + best,
        },
        None => best,
    }
}

proof fn lemma_from_best(best: Seq<Position>, block: Option<Position>, moves: Seq<Position>, i: int)
    requires
        with_block(best, block, moves),
        0 <= i < moves.len(),
    ensures
        (exists|k: int| 0 <= k < best.len() && best[k] == moves[i]) || block == Some(moves[i]),
{
    if let Some(p) = block {
        search::lemma_place_of(best, p, 0);
        match model::place_of(best, p, 0) {
            Some(at) => {
                let k = if i == at {
                    0
                } else if i == 0 {
                    at
                } else {
                    i
                };
                assert(best[k] == moves[i]);
            },
            None => {
                if i > 0 {
                    assert(best[i - 1] == moves[i]);
                }
            },
        }
    } else {
        assert(best[i] == moves[i]);
    }
}

proof fn lemma_best_stays(best: Seq<Position>, block: Option<Position>, moves: Seq<Position>, k: int)
    requires
        with_block(best, block, moves),
        0 <= k < best.len(),
    ensures
        moves.contains(best[k]),
{
    if let Some(p) = block {
        search::lemma_place_of(best, p, 0);
        match model::place_of(best, p, 0) {
            Some(at) => {
                let i = if k == at {
                    0
                } else if k == 0 {
                    at
                } else {
                    k
                };
                assert(moves[i] == best[k]);
            },
            None => {
                assert(moves[k + 1] == best[k]);
            },
        }
    } else {
        assert(moves[k] == best[k]);
    }
}

/// Whatever window and state a move of the root is tried with, its value is at most that of a five.
pub open spec fn values_are_modest(
    s: rules::Cells,
    hash: u64,
    moves: Seq<Position>,
    below: nat,
    color: Piece,
    oracle: Seq<bool>,
) -> bool {
    forall|i: int, full: bool, alpha: int, beta: int, st: model::State|
        0 <= i < moves.len() ==> ((#[trigger] model::after_move(
            s,
            hash,
            moves[i],
            full,
            below,
            alpha,
            beta,
            color,
            0,
            st,
            oracle,
        )).0 matches Some(v) ==> -1_000_000_000 <= v <= 1_000_000)
}

/// The best move of a depth so far scores no less than any, and is rated by its score.
spec fn is_best_so_far(s: rules::Cells, color: Piece, d: model::Depth) -> bool {
    d.best matches Some(b) && {
        &&& -1_000_000_000 <= b.1 <= 1_000_000
        &&& forall|k: int| 0 <= k < d.scores.len() ==> (#[trigger] d.scores[k]).1 <= b.1
        &&& rules::would_win(s, b.0, color) ==> b.1 == 1_000_000
        &&& !rules::would_win(s, b.0, color) ==> {
            &&& b.1 >= 500_000 ==> b.2 == "forced win"@
            &&& 50_000 <= b.1 < 500_000 ==> b.2 == "strong"@
            &&& b.1 < 50_000 ==> b.2 == "search"@
        }
    }
}

proof fn lemma_root_best(
    s: rules::Cells,
    hash: u64,
    moves: Seq<Position>,
    i: int,
    depth: nat,
    alpha: int,
    done: model::Depth,
    color: Piece,
    st: model::State,
    oracle: Seq<bool>,
)
    requires
        depth > 0,
        0 <= i <= moves.len(),
        values_are_modest(s, hash, moves, (depth - 1) as nat, color, oracle),
        i == 0 ==> done == (model::Depth { best: None, scores: Seq::empty() }),
        i > 0 ==> is_best_so_far(s, color, done),
    ensures
        model::root_moves(s, hash, moves, i, depth, alpha, done, color, st, oracle).0 matches Some(d) ==> moves.len() == 0
            || is_best_so_far(s, color, d),
    decreases moves.len() - i,
{
    if i < moves.len() && !model::says(st, oracle) && !rules::would_win(s, moves[i], color) {
        let (value, after) = model::after_move(
            s,
            hash,
            moves[i],
            i == 0 || depth == 1,
            (depth - 1) as nat,
            alpha,
            536_870_911,
            color,
            0,
            model::asked(st, model::Ask::TimeUp),
            oracle,
        );
        if let Some(v) = value {
            let next = model::Depth {
                best: if done.best is Some && (done.best->0).1 >= v {
                    done.best
                } else {
                    Some((moves[i], v, model::search_reason(v)))
                },
                scores: done.scores.push((moves[i], v as i32)),
            };
            assert(-1_000_000_000 <= v <= 1_000_000);
            assert forall|k: int| 0 <= k < next.scores.len() implies (#[trigger] next.scores[k]).1 <= (next.best->0).1 by {
                if k < done.scores.len() {
                    assert(done.scores[k] == next.scores[k]);
                }
            }
            let raised = if v > alpha {
                v
            } else {
                alpha
            };
            lemma_root_best(s, hash, moves, i + 1, depth, raised, next, color, after, oracle);
        }
    } else if i < moves.len() && !model::says(st, oracle) {
        let scores = done.scores.push((moves[i], 1_000_000i32));
        assert forall|k: int| 0 <= k < scores.len() implies (#[trigger] scores[k]).1 <= 1_000_000 by {
            if k < done.scores.len() {
                assert(done.scores[k] == scores[k]);
            }
        }
    }
}

/// The best move of a depth scores no less than any other that was tried at the root, a five a million,
/// and is rated by what it scores: 500000 or more is a forced win, 50000 or more is strong.
pub proof fn law_best_move_of_a_depth_scores_most(
    s: rules::Cells,
    hash: u64,
    moves: Seq<Position>,
    depth: nat,
    color: Piece,
    st: model::State,
    oracle: Seq<bool>,
)
    requires
        depth > 0,
        moves.len() > 0,
        values_are_modest(
            s,
            hash,
            model::promoted(moves, model::entry_move(table::probed(st.slots, hash))),
            (depth - 1) as nat,
            color,
            oracle,
        ),
    ensures
        model::whole_depth(s, hash, moves, depth, color, st, oracle).0 matches Some(d) ==> (d.best matches Some(b) && {
            &&& forall|k: int| 0 <= k < d.scores.len() ==> (#[trigger] d.scores[k]).1 <= b.1
            &&& rules::would_win(s, b.0, color) ==> b.1 == 1_000_000
            &&& !rules::would_win(s, b.0, color) && b.1 >= 500_000 ==> b.2 == "forced win"@
            &&& !rules::would_win(s, b.0, color) && 50_000 <= b.1 < 500_000 ==> b.2 == "strong"@
            &&& !rules::would_win(s, b.0, color) && b.1 < 50_000 ==> b.2 == "search"@
        }),
{
    let p = model::entry_move(table::probed(st.slots, hash));
    let tried = model::promoted(moves, p);
    if let Some(q) = p {
        search::lemma_place_of(moves, q, 0);
    }
    let none = model::Depth { best: None, scores: Seq::empty() };
    lemma_root_best(s, hash, tried, 0, depth, rules::no_score(), none, color, st, oracle);
}

/// A move that has refuted the one before it is the first to be thought of at its ply, before the one that
/// was; its cell gains the square of the depth, and no other cell or ply changes.
pub proof fn law_refuting_move_is_remembered(st: model::State, ply: nat, mv: Position, depth: nat)
    requires
        ply < 32,
        st.killers.len() == 32,
        st.history.len() == 324,
        rules::holds(mv),
        depth <= 16,
        0 <= st.history[18 * mv.row + mv.column] <= 1_000_000_000,
    ensures
        ({
            let after = model::refuted(st, ply, mv, depth);
            let n = 18 * mv.row + mv.column;
            &&& after.killers[ply as int].first == Some(mv)
            &&& st.killers[ply as int].first != Some(mv) ==> after.killers[ply as int].second
                == st.killers[ply as int].first
            &&& st.killers[ply as int].first == Some(mv) ==> after.killers == st.killers
            &&& forall|k: int| 0 <= k < 32 && k != ply ==> after.killers[k] == #[trigger] st.killers[k]
            &&& after.history[n] == st.history[n] + depth * depth
            &&& forall|k: int| 0 <= k < 324 && k != n ==> after.history[k] == #[trigger] st.history[k]
            &&& after.slots == st.slots
            &&& after.asks == st.asks
            &&& after.nodes == st.nodes
        }),
{
    assert(0 <= depth * depth <= 256) by (nonlinear_arith)
        requires
            depth <= 16,
    ;
}

/// A leaf is worth a forced win to the player to move who has one of at most ten fours; else it is worth
/// as much to the opponent who has one; else what both have on the board. That holds where neither look
/// is cut short.
pub proof fn law_leaf_sees_forced_wins(s: rules::Cells, hash: u64, color: Piece, st: model::State, oracle: Seq<bool>)
    requires
        rules::is_cells(s),
        !oracle[st.asks.len() as int],
        !oracle[st.asks.len() as int + 1],
    ensures
        ({
            let v = model::leaf(s, hash, color, st, oracle).0;
            let ours = fours::wins_by_fours(s, color, 10);
            let theirs = fours::wins_by_fours(s, rules::other(color), 10);
            &&& ours ==> v == Some(999_990int)
            &&& !ours && theirs ==> v == Some(-999_990int)
            &&& !ours && !theirs ==> v == Some(
                rules::evaluation(s, rules::candidates(s), color) - rules::evaluation(
                    s,
                    rules::candidates(s),
                    rules::other(color),
                ),
            )
        }),
{
    lemma_leaf_win(s, color);
    lemma_leaf_win(s, rules::other(color));
}

proof fn lemma_leaf_win(s: rules::Cells, color: Piece)
    requires
        rules::is_cells(s),
    ensures
        vcf::vcf_win(s, color, 20) is Some <==> fours::wins_by_fours(s, color, 10),
{
    if let Some(p) = vcf::vcf_win(s, color, 20) {
        let k = fours::law_vcf_finds_the_best_win(s, color, 20);
        fours::lemma_more_fours(s, color, p, k, 10);
        assert(rules::is_free(s, p) && fours::begins_fours(s, color, p, 10));
    }
    if fours::wins_by_fours(s, color, 10) {
        fours::law_vcf_misses_no_win(s, color, 20, 10);
    }
}

/// What a leaf is worth is kept in the table as an exact result.
pub proof fn law_leaf_is_kept(s: rules::Cells, hash: u64, color: Piece, st: model::State, oracle: Seq<bool>)
    requires
        st.slots.len() == 1_048_576,
        table::TT_FLAG_EXACT != table::TT_FLAG_NONE,
    ensures
        ({
            let r = model::leaf(s, hash, color, st, oracle);
            r.0 matches Some(v) && (table::probed(r.1.slots, hash) matches Some(e) && e.score == v as i32 && e.flag
                == table::TT_FLAG_EXACT && e.depth == 0)
        }),
{
}

/// A node that the table knows exactly, searched at least as deep, is answered from it, and nothing but
/// the number of nodes changes.
pub proof fn law_known_node_is_answered(
    s: rules::Cells,
    hash: u64,
    depth: nat,
    alpha: int,
    beta: int,
    color: Piece,
    ply: nat,
    st: model::State,
    oracle: Seq<bool>,
    e: TTEntry,
)
    requires
        table::probed(st.slots, hash) == Some(e),
        e.flag == table::TT_FLAG_EXACT,
        e.depth >= depth,
        st.nodes < 1_000_000_000_000,
        (st.nodes + 1) % 512 != 0,
    ensures
        model::node(s, hash, depth, alpha, beta, color, ply, st, oracle) == (
            Some(e.score as int),
            (model::State { nodes: (st.nodes + 1) as u64, ..st }),
        ),
{
    reveal_with_fuel(model::node, 2);
    reveal_with_fuel(model::counted_node, 2);
}

/// The clock is asked at every 512th node, and where the time is up there the search is broken off.
pub proof fn law_clock_is_asked_every_512_nodes(
    s: rules::Cells,
    hash: u64,
    depth: nat,
    alpha: int,
    beta: int,
    color: Piece,
    ply: nat,
    st: model::State,
    oracle: Seq<bool>,
)
    requires
        st.nodes < 1_000_000_000_000,
        (st.nodes + 1) % 512 == 0,
        oracle[st.asks.len() as int],
    ensures
        model::node(s, hash, depth, alpha, beta, color, ply, st, oracle) == (
            None::<int>,
            (model::State { nodes: (st.nodes + 1) as u64, asks: st.asks.push(model::Ask::TimeUp), ..st }),
        ),
{
}

} // verus!
