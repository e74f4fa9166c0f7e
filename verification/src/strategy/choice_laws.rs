//! What the choices of the strategies are for, in terms of the scores of the cells.
use std::sync::atomic::AtomicBool;
use std::time::Instant;

use vstd::prelude::*;

use crate::board::{Piece, Position};
use crate::config::StrategyChoice;
use crate::engine::DecisionPlan;
use crate::laws;
use crate::ranking;
use crate::rules;
use crate::score_laws;
use crate::selection;
use crate::transposition_table as table;

use super::fours;
use super::frontier;
use super::pattern;
use super::router;
use super::search_model as model;
use super::search_model::Report;
use super::tactical;
use super::vcf;
use super::vct;
use super::StrategyKind;

verus! {

/// `color` scores an open four or better, 100000, on some free cell.
pub open spec fn has_open_four(s: rules::Cells, color: Piece) -> bool {
    exists|q: Position| #[trigger] rules::is_free(s, q) && rules::score(s, q, color) >= 100_000
}

/// What the candidates with an open four are.
proof fn lemma_open_fours(s: rules::Cells, color: Piece)
    requires
        rules::is_cells(s),
    ensures
        tactical::open_fours(s, color).len() > 0 <==> has_open_four(s, color),
        forall|q: Position| #[trigger]
            tactical::open_fours(s, color).contains(q) <==> rules::is_free(s, q) && rules::score(s, q, color) >= 100_000,
{
    let pred = super::reaches(s, color, 100_000);
    let fours = tactical::open_fours(s, color);
    rules::lemma_filter_members(rules::candidates(s), pred);
    laws::law_candidates(s);
    assert forall|q: Position| #[trigger] fours.contains(q) <==> rules::is_free(s, q) && rules::score(s, q, color)
        >= 100_000 by {
        if rules::is_free(s, q) && rules::score(s, q, color) >= 100_000 {
            score_laws::law_what_scores_is_a_candidate(s, q, color);
            assert(pred(q));
        }
    }
    if fours.len() > 0 {
        assert(fours.contains(fours[0]));
        assert(rules::is_free(s, fours[0]));
    }
    if has_open_four(s, color) {
        let q = choose|q: Position| #[trigger] rules::is_free(s, q) && rules::score(s, q, color) >= 100_000;
        assert(fours.contains(q));
    }
}

/// The last of the best has the greatest key.
pub proof fn lemma_last_best_is_best(ps: Seq<Position>, key: spec_fn(Position) -> int)
    requires
        ps.len() > 0,
    ensures
        ps.contains(tactical::last_best(ps, key)),
        forall|q: Position| #[trigger] ps.contains(q) ==> key(q) <= key(tactical::last_best(ps, key)),
    decreases ps.len(),
{
    tactical::lemma_last_best(ps, key);
    if ps.len() > 1 {
        let t = ps.drop_last();
        lemma_last_best_is_best(t, key);
        assert forall|q: Position| #[trigger] ps.contains(q) implies key(q) <= key(tactical::last_best(ps, key)) by {
            let i = choose|i: int| 0 <= i < ps.len() && ps[i] == q;
            if i < t.len() {
                assert(t[i] == q);
                assert(t.contains(q));
            }
        }
    }
}

/// An open four of the opponent's is blocked on the cell where it is worth most, but only where we have
/// no open four of our own: that one wins first.
pub proof fn law_open_four_is_blocked_unless_ours_comes_first(s: rules::Cells, color: Piece)
    requires
        rules::is_cells(s),
    ensures
        has_open_four(s, color) ==> tactical::open_four_block(s, color) is None,
        !has_open_four(s, color) && has_open_four(s, rules::other(color)) ==> (tactical::open_four_block(s, color)
            matches Some(p) && scores_most(s, rules::other(color), p)),
        !has_open_four(s, rules::other(color)) ==> tactical::open_four_block(s, color) is None,
{
    let opponent = rules::other(color);
    let fours = tactical::open_fours(s, opponent);
    lemma_open_fours(s, color);
    lemma_open_fours(s, opponent);
    if fours.len() > 0 {
        lemma_last_best_is_best(fours, super::by_attack(s, opponent));
        let p = tactical::last_best(fours, super::by_attack(s, opponent));
        assert forall|q: Position| #[trigger] rules::is_free(s, q) implies rules::score(s, q, opponent) <= rules::score(
            s,
            p,
            opponent,
        ) by {
            assert(fours.contains(p));
            if rules::score(s, q, opponent) >= 100_000 {
                assert(fours.contains(q));
            }
        }
    }
}

/// What a cell gives to whom it gives more counts twice, and to the other once.
pub open spec fn worth(s: rules::Cells, p: Position) -> int {
    let black = rules::score(s, p, Piece::Black);
    let white = rules::score(s, p, Piece::White);
    black + white + if black > white {
        black
    } else {
        white
    }
}

/// `p` is a candidate, and no candidate is worth more.
pub open spec fn is_worth_most(s: rules::Cells, p: Position) -> bool {
    rules::candidates(s).contains(p) && forall|q: Position| #[trigger]
        rules::candidates(s).contains(q) ==> worth(s, q) <= worth(s, p)
}

/// A cell is worth the same to both players.
pub proof fn law_worth_is_the_same_for_both(s: rules::Cells, color: Piece, p: Position)
    ensures
        super::value(s, color, p) == worth(s, p),
        super::value(s, color, p) == super::value(s, rules::other(color), p),
{
}

proof fn lemma_ranked_first(s: rules::Cells, color: Piece)
    requires
        rules::candidates(s).len() > 0,
    ensures
        ranking::ranked(rules::candidates(s), super::by_worth(s, color)).len() == rules::candidates(s).len(),
        is_worth_most(s, ranking::ranked(rules::candidates(s), super::by_worth(s, color))[0]),
{
    let all = rules::candidates(s);
    let key = super::by_worth(s, color);
    let ranked = ranking::ranked(all, key);
    ranking::lemma_ranked(all, key);
    assert(ranked.contains(ranked[0]));
    assert forall|q: Position| #[trigger] all.contains(q) implies worth(s, q) <= worth(s, ranked[0]) by {
        assert(ranked.contains(q));
        let k = choose|k: int| 0 <= k < ranked.len() && ranked[k] == q;
        assert(key(ranked[0]) >= key(ranked[k]));
    }
}

/// The tactical strategy takes a win on a cell that makes five, and scores it above a block of one, which
/// it scores above a block of an open four, which it scores above any other move.
pub proof fn law_tactical_scores_rank(s: rules::Cells, color: Piece, t: rules::Cells, other_color: Piece)
    requires
        rules::is_cells(s),
        rules::is_cells(t),
        tactical::tactical_choice(s, color) is Some,
        tactical::tactical_choice(t, other_color) is Some,
        urgency(s, color) > urgency(t, other_color),
    ensures
        (tactical::tactical_choice(s, color)->0).1 > (tactical::tactical_choice(t, other_color)->0).1,
{
    reveal(tactical::tactical_choice);
    lemma_urgent(s, color);
    lemma_urgent(t, other_color);
    laws::law_candidates(t);
    let ranked = ranking::ranked(rules::candidates(t), super::by_worth(t, other_color));
    if urgency(t, other_color) == 0 && ranked.len() > 0 {
        ranking::lemma_ranked(rules::candidates(t), super::by_worth(t, other_color));
        rules::law_million_means_five(t, ranked[0], Piece::Black);
        rules::law_million_means_five(t, ranked[0], Piece::White);
    }
}

/// How pressing a position is for `color`: a win is there, or else one of the opponent's has to be
/// stopped, or else an open four of theirs, or none of these.
pub open spec fn urgency(s: rules::Cells, color: Piece) -> int {
    if exists|q: Position| #[trigger] rules::would_win(s, q, color) {
        3
    } else if exists|q: Position| #[trigger] rules::would_win(s, q, rules::other(color)) {
        2
    } else if has_open_four(s, rules::other(color)) && !has_open_four(s, color) {
        1
    } else {
        0
    }
}

proof fn lemma_urgent(s: rules::Cells, color: Piece)
    requires
        rules::is_cells(s),
    ensures
        rules::has_winning_move(s, color) <==> urgency(s, color) == 3,
        !rules::has_winning_move(s, color) && rules::has_winning_move(s, rules::other(color)) <==> urgency(s, color) == 2,
        !rules::has_winning_move(s, color) && !rules::has_winning_move(s, rules::other(color)) ==> (
        tactical::open_four_block(s, color) is Some <==> urgency(s, color) == 1),
{
    laws::law_winning_moves_are_all(s, color);
    laws::law_winning_moves_are_all(s, rules::other(color));
    law_open_four_is_blocked_unless_ours_comes_first(s, color);
}

/// Where nobody can make five at once, the tactical strategy plays a candidate worth most, with what it is
/// worth as the score, unless an open four has to be blocked; then it says so, and blocks it where it is
/// worth most.
pub proof fn law_tactical_plays_what_is_worth_most(s: rules::Cells, color: Piece)
    requires
        rules::is_cells(s),
        rules::stones(s) < 324,
    ensures
        urgency(s, color) == 0 ==> (tactical::tactical_choice(s, color) matches Some(c) && is_worth_most(s, c.0) && c.1
            == worth(s, c.0) && c.2 != "block open four"@),
        urgency(s, color) == 1 ==> (tactical::tactical_choice(s, color) matches Some(c) && c.2 == "block open four"@
            && scores_most(s, rules::other(color), c.0)),
{
    reveal(tactical::tactical_choice);
    lemma_urgent(s, color);
    laws::law_candidates_until_full(s);
    law_open_four_is_blocked_unless_ours_comes_first(s, color);
    lemma_ranked_first(s, color);
    let ranked = ranking::ranked(rules::candidates(s), super::by_worth(s, color));
    lemma_reasons(rules::score(s, ranked[0], color), rules::score(s, ranked[0], rules::other(color)));
}

/// `p` is a free cell, and `color` scores on no free cell more.
pub open spec fn scores_most(s: rules::Cells, color: Piece, p: Position) -> bool {
    rules::is_free(s, p) && forall|q: Position| #[trigger]
        rules::is_free(s, q) ==> rules::score(s, q, color) <= rules::score(s, p, color)
}

/// A move that is not a block is not rated as one.
proof fn lemma_reasons(mine: int, theirs: int)
    ensures
        tactical::tactical_reason(mine, theirs) != "block open four"@,
{
    reveal_strlit("block open four");
    reveal_strlit("open four pressure");
    reveal_strlit("threat building");
    reveal_strlit("block open three");
    reveal_strlit("local tactical pressure");
    assert("block open four"@.len() == 15);
    assert("open four pressure"@.len() == 18);
    assert("threat building"@[0] == 't' && "block open four"@[0] == 'b');
    assert("block open three"@.len() == 16);
    assert("local tactical pressure"@.len() == 23);
}

/// The pattern strategy and the frontier strategy play a candidate worth most while there is one.
pub proof fn law_pattern_plays_what_is_worth_most(s: rules::Cells, color: Piece)
    requires
        rules::is_cells(s),
        rules::stones(s) < 324,
    ensures
        pattern::pattern_choice(s, color) matches Some(c) && is_worth_most(s, c.0) && c.1 == worth(s, c.0),
        frontier::frontier_choice(s, color) matches Some(c) && is_worth_most(s, c.0) && c.1 == worth(s, c.0),
{
    laws::law_candidates_until_full(s);
    lemma_ranked_first(s, color);
}

/// The adaptive strategy makes a five at once, or else stops one of the opponent's.
#[verifier::spinoff_prover]
pub proof fn law_adaptive_makes_or_stops_a_five(
    s: rules::Cells,
    hash: u64,
    color: Piece,
    before: table::Slots,
    deadline: Instant,
    cancel: &AtomicBool,
    r: Option<DecisionPlan>,
    after: table::Slots,
    reports: Seq<Report>,
)
    requires
        rules::is_cells(s),
        rules::stones(s) < 324,
        selection::is_selected(s, hash, color, StrategyChoice::Adaptive, before, deadline, cancel, r, after, reports),
    ensures
        urgency(s, color) == 3 ==> (r matches Some(plan) && rules::would_win(s, plan.position, color)),
        urgency(s, color) == 2 ==> (r matches Some(plan) && rules::would_win(s, plan.position, rules::other(color))),
{
    lemma_urgent_cells(s, color);
}

/// Where nobody can make five at once, the adaptive strategy plays a candidate worth most while there are
/// less than four stones. Later, where we have no open four, it blocks one of the opponent's where it is
/// worth most.
#[verifier::spinoff_prover]
pub proof fn law_adaptive_opens_or_blocks(
    s: rules::Cells,
    hash: u64,
    color: Piece,
    before: table::Slots,
    deadline: Instant,
    cancel: &AtomicBool,
    r: Option<DecisionPlan>,
    after: table::Slots,
    reports: Seq<Report>,
)
    requires
        rules::is_cells(s),
        rules::stones(s) < 324,
        selection::is_selected(s, hash, color, StrategyChoice::Adaptive, before, deadline, cancel, r, after, reports),
        urgency(s, color) < 2,
    ensures
        rules::stones(s) < 4 ==> (r matches Some(plan) && is_worth_most(s, plan.position)),
        urgency(s, color) == 1 && rules::stones(s) >= 4 ==> (r matches Some(plan) && scores_most(
            s,
            rules::other(color),
            plan.position,
        )),
{
    lemma_urgent_cells(s, color);
    if rules::stones(s) < 4 {
        law_pattern_plays_what_is_worth_most(s, color);
    }
}

/// Where nothing is pressing, the adaptive strategy searches; an open four of our own is no reason not to.
#[verifier::spinoff_prover]
pub proof fn law_adaptive_searches_else(
    s: rules::Cells,
    hash: u64,
    color: Piece,
    before: table::Slots,
    deadline: Instant,
    cancel: &AtomicBool,
    r: Option<DecisionPlan>,
    after: table::Slots,
    reports: Seq<Report>,
)
    requires
        rules::is_cells(s),
        rules::stones(s) < 324,
        selection::is_selected(s, hash, color, StrategyChoice::Adaptive, before, deadline, cancel, r, after, reports),
        urgency(s, color) == 0,
        rules::stones(s) >= 4,
    ensures
        selection::is_search_plan(s, hash, color, before, deadline, cancel, r, after, reports),
{
    lemma_urgent_cells(s, color);
}

/// The cells that are pressing.
proof fn lemma_urgent_cells(s: rules::Cells, color: Piece)
    requires
        rules::is_cells(s),
    ensures
        rules::has_winning_move(s, color) <==> urgency(s, color) == 3,
        !rules::has_winning_move(s, color) && rules::has_winning_move(s, rules::other(color)) <==> urgency(s, color) == 2,
        urgency(s, color) < 2 ==> (tactical::open_four_block(s, color) is Some <==> urgency(s, color) == 1),
        urgency(s, color) == 3 ==> rules::would_win(s, rules::winning_moves(s, color)[0], color),
        urgency(s, color) == 2 ==> rules::would_win(
            s,
            rules::winning_moves(s, rules::other(color))[0],
            rules::other(color),
        ),
        urgency(s, color) == 1 ==> scores_most(s, rules::other(color), tactical::open_four_block(s, color)->0),
        urgency(s, color) <= 3,
{
    lemma_urgent(s, color);
    laws::law_winning_moves_are_all(s, color);
    laws::law_winning_moves_are_all(s, rules::other(color));
    law_open_four_is_blocked_unless_ours_comes_first(s, color);
}

/// The strategy for consecutive fours begins a win of ours where there is one, else takes the cell on
/// which one of the opponent's begins, and else chooses nothing; the one for consecutive threats looks
/// further.
pub proof fn law_forced_wins_are_begun_or_stopped(s: rules::Cells, color: Piece)
    requires
        rules::is_cells(s),
    ensures
        fours::wins_by_fours(s, color, 20) ==> (vcf::vcf_choice(s, color) matches Some(c) && fours::begins_fours(
            s,
            color,
            c.0,
            20,
        ) && c.2 == "vcf forced win"@),
        !fours::wins_by_fours(s, color, 20) && fours::wins_by_fours(s, rules::other(color), 20) ==> (vcf::vcf_choice(
            s,
            color,
        ) matches Some(c) && fours::begins_fours(s, rules::other(color), c.0, 20) && c.2 == "vcf block"@),
        !fours::wins_by_fours(s, color, 20) && !fours::wins_by_fours(s, rules::other(color), 20) ==> vcf::vcf_choice(
            s,
            color,
        ) is None,
        fours::wins_by_fours(s, color, 35) ==> (vct::vct_choice(s, color) matches Some(c) && fours::begins_fours(
            s,
            color,
            c.0,
            35,
        ) && c.2 == "vct forced win"@),
        !fours::wins_by_fours(s, color, 35) && fours::wins_by_fours(s, rules::other(color), 35) ==> (vct::vct_choice(
            s,
            color,
        ) matches Some(c) && fours::begins_fours(s, rules::other(color), c.0, 35) && c.2 == "vct block"@),
        !fours::wins_by_fours(s, color, 35) && !fours::wins_by_fours(s, rules::other(color), 35) ==> vct::vct_choice(
            s,
            color,
        ) is None,
{
    lemma_forced(s, color);
    lemma_forced(s, rules::other(color));
}

pub proof fn lemma_forced(s: rules::Cells, color: Piece)
    requires
        rules::is_cells(s),
    ensures
        vcf::vcf_win(s, color, 40) is Some <==> fours::wins_by_fours(s, color, 20),
        vcf::vcf_win(s, color, 40) matches Some(p) ==> fours::begins_fours(s, color, p, 20),
        vct::vct_win(s, color, 30) is Some <==> fours::wins_by_fours(s, color, 35),
        vct::vct_win(s, color, 30) matches Some(p) ==> fours::begins_fours(s, color, p, 35),
{
    if let Some(p) = vcf::vcf_win(s, color, 40) {
        let k = fours::law_vcf_finds_the_best_win(s, color, 40);
        fours::lemma_more_fours(s, color, p, k, 20);
        assert(rules::is_free(s, p) && fours::begins_fours(s, color, p, 20));
    }
    if fours::wins_by_fours(s, color, 20) {
        fours::law_vcf_misses_no_win(s, color, 40, 20);
    }
    if let Some(p) = vct::vct_win(s, color, 30) {
        let k = fours::law_vct_finds_the_best_win(s, color, 30);
        fours::lemma_more_fours(s, color, p, k, 35);
        assert(rules::is_free(s, p) && fours::begins_fours(s, color, p, 35));
    }
    if fours::wins_by_fours(s, color, 35) {
        fours::law_vct_misses_no_win(s, color, 30, 35);
    }
}

/// Ranking and then looking up is looking up and then ranking.
proof fn lemma_insert_looked_up<T>(s: Seq<T>, x: T, f: spec_fn(T) -> int)
    ensures
        ranking::insert_ranked(s, x, f).map_values(f) == ranking::insert_ranked(
            s.map_values(f),
            f(x),
            ranking::by_value(),
        ),
    decreases s.len(),
{
    let t = s.map_values(f);
    if s.len() == 0 || f(s.last()) >= f(x) {
        assert(s.push(x).map_values(f) =~= t.push(f(x)));
    } else {
        lemma_insert_looked_up(s.drop_last(), x, f);
        assert(s.drop_last().map_values(f) =~= t.drop_last());
        let inner = ranking::insert_ranked(s.drop_last(), x, f);
        assert(inner.push(s.last()).map_values(f) =~= inner.map_values(f).push(f(s.last())));
    }
}

proof fn lemma_ranked_looked_up<T>(s: Seq<T>, f: spec_fn(T) -> int)
    ensures
        ranking::ranked(s, f).map_values(f) == ranking::ranked(s.map_values(f), ranking::by_value()),
    decreases s.len(),
{
    if s.len() == 0 {
        assert(s.map_values(f) =~= Seq::<int>::empty());
        assert(ranking::ranked(s, f).map_values(f) =~= s.map_values(f));
    } else {
        lemma_ranked_looked_up(s.drop_last(), f);
        lemma_insert_looked_up(ranking::ranked(s.drop_last(), f), s.last(), f);
        assert(s.map_values(f).drop_last() =~= s.drop_last().map_values(f));
    }
}

/// `ps` are candidates, all different, and no other candidate scores more for `color` than any of them.
pub open spec fn are_best(s: rules::Cells, color: Piece, ps: Seq<Position>) -> bool {
    &&& ps.no_duplicates()
    &&& forall|i: int| 0 <= i < ps.len() ==> rules::candidates(s).contains(#[trigger] ps[i])
    &&& forall|q: Position, i: int| #[trigger]
        rules::candidates(s).contains(q) && 0 <= i < ps.len() && !ps.contains(q) ==> rules::score(s, q, color)
            <= rules::score(s, #[trigger] ps[i], color)
}

/// What all the cells `ps` score together.
pub open spec fn together(s: rules::Cells, color: Piece, ps: Seq<Position>) -> int
    decreases ps.len(),
{
    if ps.len() == 0 {
        0
    } else {
        together(s, color, ps.drop_last()) + rules::score(s, ps.last(), color)
    }
}

proof fn lemma_together(s: rules::Cells, color: Piece, ps: Seq<Position>)
    ensures
        rules::sum(ps.map_values(super::by_attack(s, color))) == together(s, color, ps),
    decreases ps.len(),
{
    let f = super::by_attack(s, color);
    if ps.len() > 0 {
        lemma_together(s, color, ps.drop_last());
        assert(ps.map_values(f).drop_last() =~= ps.drop_last().map_values(f));
    }
}

/// A position is worth to a player what the three candidates score together that score most for that
/// player; all candidates, where there are less than three.
pub proof fn law_evaluation_is_the_three_best(s: rules::Cells, color: Piece) -> (best: Seq<Position>)
    requires
        rules::is_cells(s),
    ensures
        are_best(s, color, best),
        best.len() == if rules::candidates(s).len() < 3 {
            rules::candidates(s).len()
        } else {
            3
        },
        rules::evaluation(s, rules::candidates(s), color) == together(s, color, best),
{
    broadcast use vstd::seq_lib::group_to_multiset_ensures;

    let all = rules::candidates(s);
    let f = super::by_attack(s, color);
    let ranked = ranking::ranked(all, f);
    laws::law_candidates(s);
    ranking::lemma_ranked(all, f);
    all.lemma_multiset_has_no_duplicates();
    ranked.lemma_multiset_has_no_duplicates_conv();
    lemma_ranked_looked_up(all, f);
    assert(rules::scores(s, all, color) =~= all.map_values(f));
    let n: int = if ranked.len() < 3 {
        ranked.len() as int
    } else {
        3
    };
    let best = ranked.take(n);
    assert(ranked.map_values(f).take(n) =~= best.map_values(f));
    lemma_together(s, color, best);
    assert forall|i: int| 0 <= i < best.len() implies all.contains(#[trigger] best[i]) by {
        assert(ranked.contains(ranked[i]));
    }
    assert forall|q: Position, i: int| #[trigger]
        all.contains(q) && 0 <= i < best.len() && !best.contains(q) implies rules::score(s, q, color) <= rules::score(
        s,
        #[trigger] best[i],
        color,
    ) by {
        assert(ranked.contains(q));
        let k = choose|k: int| 0 <= k < ranked.len() && ranked[k] == q;
        if k < n {
            assert(best[k] == q);
        }
        assert(f(ranked[i]) >= f(ranked[k]));
    }
    best
}

/// A leaf without a forced win is worth to the player to move what the three best candidates of that
/// player score together, less what those of the opponent do.
pub proof fn law_leaf_weighs_both_players(s: rules::Cells, color: Piece) -> (best: (Seq<Position>, Seq<Position>))
    requires
        rules::is_cells(s),
    ensures
        are_best(s, color, best.0),
        are_best(s, rules::other(color), best.1),
        best.0.len() == best.1.len(),
        best.0.len() == if rules::candidates(s).len() < 3 {
            rules::candidates(s).len()
        } else {
            3
        },
        model::leaf_value(s, color, None, None) == together(s, color, best.0) - together(s, rules::other(color), best.1),
{
    let ours = law_evaluation_is_the_three_best(s, color);
    let theirs = law_evaluation_is_the_three_best(s, rules::other(color));
    (ours, theirs)
}

/// A leaf is worth to one player what it costs the other: without a forced win, and with one, which is
/// worth the more to whose it is.
pub proof fn law_leaf_is_zero_sum(
    s: rules::Cells,
    color: Piece,
    win: Position,
    ignored: Option<Position>,
    other_win: Position,
)
    ensures
        model::leaf_value(s, color, None, None) == -model::leaf_value(s, rules::other(color), None, None),
        model::leaf_value(s, color, Some(win), ignored) == -model::leaf_value(s, rules::other(color), None, Some(other_win)),
        model::leaf_value(s, color, Some(win), ignored) > 900_000,
{
}

/// One of the players scores 50000 or more on some free cell.
pub open spec fn is_hot(s: rules::Cells) -> bool {
    exists|q: Position| #[trigger]
        rules::is_free(s, q) && (rules::score(s, q, Piece::Black) >= 50_000 || rules::score(s, q, Piece::White) >= 50_000)
}

proof fn lemma_best_score(scores: Seq<int>, least: int)
    requires
        least > rules::no_score(),
    ensures
        rules::best_score(scores) >= least <==> exists|i: int| 0 <= i < scores.len() && #[trigger] scores[i] >= least,
    decreases scores.len(),
{
    if scores.len() > 0 {
        let before = scores.drop_last();
        lemma_best_score(before, least);
        assert(scores[scores.len() - 1] == scores.last());
        if rules::best_score(before) >= least {
            let i = choose|i: int| 0 <= i < before.len() && #[trigger] before[i] >= least;
            assert(scores[i] == before[i]);
        }
        if exists|i: int| 0 <= i < scores.len() && #[trigger] scores[i] >= least {
            let i = choose|i: int| 0 <= i < scores.len() && #[trigger] scores[i] >= least;
            if i < before.len() {
                assert(before[i] == scores[i]);
            }
        }
    }
}

proof fn lemma_hot(s: rules::Cells, color: Piece)
    requires
        rules::is_cells(s),
    ensures
        router::hot(s, color) <==> is_hot(s),
{
    lemma_hot_for(s, Piece::Black);
    lemma_hot_for(s, Piece::White);
}

proof fn lemma_hot_for(s: rules::Cells, color: Piece)
    requires
        rules::is_cells(s),
    ensures
        rules::best_score(rules::scores(s, rules::candidates(s), color)) >= 50_000 <==> exists|q: Position| #[trigger]
            rules::is_free(s, q) && rules::score(s, q, color) >= 50_000,
{
    let all = rules::candidates(s);
    let scores = rules::scores(s, all, color);
    lemma_best_score(scores, 50_000);
    laws::law_candidates(s);
    if rules::best_score(scores) >= 50_000 {
        let i = choose|i: int| 0 <= i < scores.len() && #[trigger] scores[i] >= 50_000;
        assert(all.contains(all[i]));
        assert(rules::is_free(s, all[i]) && rules::score(s, all[i], color) >= 50_000);
    }
    if exists|q: Position| #[trigger] rules::is_free(s, q) && rules::score(s, q, color) >= 50_000 {
        let q = choose|q: Position| #[trigger] rules::is_free(s, q) && rules::score(s, q, color) >= 50_000;
        score_laws::law_what_scores_is_a_candidate(s, q, color);
        let i = choose|i: int| 0 <= i < all.len() && all[i] == q;
        assert(scores[i] >= 50_000);
    }
}

/// The router: tactical where somebody can make five at once, else by pattern with less than four stones,
/// else tactical where a cell is hot; else by the number of candidates: a search up to 8, the frontier up
/// to 20, the pattern above. Pattern and frontier play a candidate worth most.
pub proof fn law_router_goes_by_the_position(s: rules::Cells, hash: u64, color: Piece, r: Option<DecisionPlan>)
    requires
        rules::is_cells(s),
        rules::stones(s) < 324,
        router::is_routed(s, hash, color, r),
    ensures
        ({
            let n = rules::candidates(s).len();
            let urgent = urgency(s, color) >= 2;
            let quiet = !urgent && rules::stones(s) >= 4 && !is_hot(s);
            &&& r is Some
            &&& r matches Some(plan) && {
                &&& urgent || rules::stones(s) >= 4 && is_hot(s) ==> plan.strategy == StrategyKind::Tactical
                &&& !urgent && rules::stones(s) < 4 ==> plan.strategy == StrategyKind::Pattern && is_worth_most(
                    s,
                    plan.position,
                )
                &&& quiet && n <= 8 ==> plan.strategy == StrategyKind::Search && super::search::may_pick(
                    s,
                    hash,
                    color,
                    Some((plan.position, plan.score, plan.reason)),
                )
                &&& quiet && 8 < n <= 20 ==> plan.strategy == StrategyKind::Search && is_worth_most(s, plan.position)
                &&& quiet && 20 < n ==> plan.strategy == StrategyKind::Pattern && is_worth_most(s, plan.position)
            }
        }),
{
    lemma_urgent(s, color);
    lemma_hot(s, color);
    law_pattern_plays_what_is_worth_most(s, color);
    tactical::law_tactical_plays_a_free_cell(s, color);
}

/// Of several candidates worth most, the first one is played by the pattern strategy.
pub proof fn law_pattern_plays_the_first_of_the_best(s: rules::Cells, color: Piece)
    requires
        rules::is_cells(s),
        rules::stones(s) < 324,
    ensures
        pattern::pattern_choice(s, color) matches Some(c) && exists|at: int|
            0 <= at < rules::candidates(s).len() && #[trigger] rules::candidates(s)[at] == c.0 && forall|k: int|
                0 <= k < at ==> super::value(s, color, #[trigger] rules::candidates(s)[k]) < super::value(s, color, c.0),
{
    laws::law_candidates_until_full(s);
    laws::law_candidates(s);
    lemma_first_of_the_best(rules::candidates(s), super::by_worth(s, color));
    let key = super::by_worth(s, color);
    let all = rules::candidates(s);
    let p = ranking::ranked(all, key)[0];
    let at = choose|at: int|
        0 <= at < all.len() && #[trigger] all[at] == p && forall|k: int| 0 <= k < at ==> key(#[trigger] all[k]) < key(p);
    assert forall|k: int| 0 <= k < at implies super::value(s, color, #[trigger] all[k]) < super::value(s, color, p) by {
        assert(key(all[k]) < key(p));
    }
    assert(all[at] == p);
}

/// The first of a ranking is the first of the best.
proof fn lemma_first_of_the_best(all: Seq<Position>, key: spec_fn(Position) -> int)
    requires
        all.len() > 0,
        all.no_duplicates(),
    ensures
        ({
            let p = ranking::ranked(all, key)[0];
            exists|at: int|
                0 <= at < all.len() && #[trigger] all[at] == p && forall|k: int|
                    0 <= k < at ==> key(#[trigger] all[k]) < key(p)
        }),
{
    broadcast use vstd::seq_lib::group_to_multiset_ensures;

    let ranked = ranking::ranked(all, key);
    let p = ranked[0];
    ranking::lemma_ranked(all, key);
    all.lemma_multiset_has_no_duplicates();
    ranked.lemma_multiset_has_no_duplicates_conv();
    assert(ranked.contains(p));
    let at = choose|at: int| 0 <= at < all.len() && all[at] == p;
    assert forall|k: int| 0 <= k < at implies key(#[trigger] all[k]) < key(p) by {
        if key(all[k]) >= key(p) {
            ranking::law_ranking_keeps_the_order(all, key, k, at);
            let (a, b) = choose|a: int, b: int|
                0 <= a < b < ranked.len() && #[trigger] ranked[a] == all[k] && #[trigger] ranked[b] == all[at];
            assert(ranked[b] == ranked[0]);
        }
    }
    assert(all[at] == p);
}

/// Of several cells on which the opponent's open four is worth most, the last candidate is taken to block
/// it; the reply that is expected is the last candidate that scores most.
pub proof fn law_last_of_the_best_is_taken(ps: Seq<Position>, key: spec_fn(Position) -> int)
    requires
        ps.len() > 0,
    ensures
        exists|at: int|
            0 <= at < ps.len() && #[trigger] ps[at] == tactical::last_best(ps, key) && forall|k: int|
                at < k < ps.len() ==> key(#[trigger] ps[k]) < key(ps[at]),
    decreases ps.len(),
{
    if ps.len() > 1 {
        let t = ps.drop_last();
        law_last_of_the_best_is_taken(t, key);
        let at = choose|at: int|
            0 <= at < t.len() && #[trigger] t[at] == tactical::last_best(t, key) && forall|k: int|
                at < k < t.len() ==> key(#[trigger] t[k]) < key(t[at]);
        if key(ps.last()) >= key(t[at]) {
            assert(ps[ps.len() - 1] == ps.last());
        } else {
            assert(ps[at] == t[at]);
            assert forall|k: int| at < k < ps.len() implies key(#[trigger] ps[k]) < key(ps[at]) by {
                if k < t.len() {
                    assert(t[k] == ps[k]);
                }
            }
        }
    } else {
        assert(ps[0] == tactical::last_best(ps, key));
    }
}

} // verus!
