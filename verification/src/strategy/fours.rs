//! Wins by consecutive fours, by the rules alone, and that the strategies find exactly these.
use vstd::prelude::*;

use crate::board::{Piece, Position};
use crate::laws;
use crate::ranking;
use crate::rules;
use crate::score_laws;

use super::vcf;
use super::vct;

verus! {

/// `color` can make five in a row on two different cells.
pub open spec fn two_ways(s: rules::Cells, color: Piece) -> bool {
    exists|a: Position, b: Position|
        a != b && #[trigger] rules::would_win(s, a, color) && #[trigger] rules::would_win(s, b, color)
}

/// `color` can make five in a row on the cell `w` and on no other.
pub open spec fn only_way(s: rules::Cells, color: Piece, w: Position) -> bool {
    rules::would_win(s, w, color) && forall|x: Position| #[trigger] rules::would_win(s, x, color) ==> x == w
}

/// `color` cannot make five in a row.
pub open spec fn no_way(s: rules::Cells, color: Piece) -> bool {
    forall|x: Position| !#[trigger] rules::would_win(s, x, color)
}

/// The attacker, whose move it is, makes five in a row in at most `k` fours and the five that follows:
/// each four but the last leaves the defender one reply.
pub open spec fn wins_by_fours(s: rules::Cells, attacker: Piece, k: nat) -> bool
    decreases k, 1int,
{
    exists|mv: Position| #[trigger] rules::is_free(s, mv) && begins_fours(s, attacker, mv, k)
}

/// The attacker's move `mv` makes five in a row; or the defender cannot make five after it, and either
/// two fives threaten, or one does, and once the defender has taken its cell the attacker wins by at
/// most `k - 1` fours.
pub open spec fn begins_fours(s: rules::Cells, attacker: Piece, mv: Position, k: nat) -> bool
    decreases k, 0int,
{
    let t = rules::put(s, mv, attacker);
    let defender = rules::other(attacker);
    &&& k > 0
    &&& rules::is_free(s, mv)
    &&& {
        ||| rules::would_win(s, mv, attacker)
        ||| no_way(t, defender) && two_ways(t, attacker)
        ||| no_way(t, defender) && exists|w: Position| #[trigger]
            only_way(t, attacker, w) && wins_by_fours(rules::put(t, w, defender), attacker, (k - 1) as nat)
    }
}

/// What the winning moves are, by the rules.
proof fn lemma_ways(s: rules::Cells, color: Piece)
    requires
        rules::is_cells(s),
    ensures
        !rules::has_winning_move(s, color) <==> no_way(s, color),
        rules::winning_moves(s, color).len() >= 2 <==> two_ways(s, color),
        rules::winning_moves(s, color).len() == 1 ==> only_way(s, color, rules::winning_moves(s, color)[0]),
        forall|w: Position| #[trigger]
            only_way(s, color, w) ==> rules::winning_moves(s, color).len() == 1 && rules::winning_moves(s, color)[0]
                == w,
{
    let wins = rules::winning_moves(s, color);
    laws::law_winning_moves_are_all(s, color);
    if wins.len() >= 2 {
        assert(wins[0] != wins[1]);
        assert(rules::would_win(s, wins[0], color) && rules::would_win(s, wins[1], color));
    }
    if two_ways(s, color) {
        let (a, b) = choose|a: Position, b: Position|
            a != b && #[trigger] rules::would_win(s, a, color) && #[trigger] rules::would_win(s, b, color);
        assert(wins.contains(a) && wins.contains(b));
    }
    if wins.len() == 1 {
        assert forall|x: Position| #[trigger] rules::would_win(s, x, color) implies x == wins[0] by {
            assert(wins.contains(x));
        }
    }
    assert forall|w: Position| #[trigger] only_way(s, color, w) implies wins.len() == 1 && wins[0] == w by {
        assert(wins.contains(w));
        assert(rules::would_win(s, wins[0], color));
        if wins.len() >= 2 {
            assert(rules::would_win(s, wins[1], color));
            assert(wins[0] != wins[1]);
        }
    }
}

/// A candidate that reaches the threshold is among the threats.
proof fn lemma_is_threat(s: rules::Cells, attacker: Piece, threshold: int, p: Position) -> (i: int)
    requires
        rules::candidates(s).contains(p),
        rules::score(s, p, attacker) >= threshold,
    ensures
        0 <= i < super::threats(s, attacker, threshold).len(),
        super::threats(s, attacker, threshold)[i] == p,
{
    let pred = super::reaches(s, attacker, threshold);
    let kept = rules::candidates(s).filter(pred);
    rules::lemma_filter_members(rules::candidates(s), pred);
    ranking::lemma_ranked(kept, super::by_attack(s, attacker));
    assert(pred(p));
    assert(kept.contains(p));
    let threats = super::threats(s, attacker, threshold);
    assert(threats.contains(p));
    choose|i: int| 0 <= i < threats.len() && threats[i] == p
}

/// A move that begins a win by fours is a threat, or there is a five at once.
proof fn lemma_begins_is_threat(s: rules::Cells, attacker: Piece, mv: Position, k: nat)
    requires
        rules::is_cells(s),
        begins_fours(s, attacker, mv, k),
    ensures
        (rules::candidates(s).contains(mv) && rules::score(s, mv, attacker) >= 25_000) || rules::has_winning_move(
            s,
            attacker,
        ),
{
    let t = rules::put(s, mv, attacker);
    let defender = rules::other(attacker);
    laws::law_winning_moves_are_all(s, attacker);
    if !rules::has_winning_move(s, attacker) {
        let w = if two_ways(t, attacker) {
            choose|a: Position| exists|b: Position|
                a != b && #[trigger] rules::would_win(t, a, attacker) && #[trigger] rules::would_win(t, b, attacker)
        } else {
            choose|w: Position| #[trigger]
                only_way(t, attacker, w) && wins_by_fours(rules::put(t, w, defender), attacker, (k - 1) as nat)
        };
        assert(rules::would_win(t, w, attacker));
        score_laws::law_new_threat_scores(s, mv, w, attacker);
    }
}

/// Where a five is there at once, it is among the threats.
proof fn lemma_five_is_threat(s: rules::Cells, attacker: Piece, threshold: int) -> (i: int)
    requires
        rules::is_cells(s),
        rules::has_winning_move(s, attacker),
        threshold <= 1_000_000,
    ensures
        0 <= i < super::threats(s, attacker, threshold).len(),
        rules::would_win(s, super::threats(s, attacker, threshold)[i], attacker),
{
    let w = rules::winning_moves(s, attacker)[0];
    laws::law_winning_moves_are_all(s, attacker);
    rules::law_million_means_five(s, w, attacker);
    score_laws::law_what_scores_is_a_candidate(s, w, attacker);
    lemma_is_threat(s, attacker, threshold, w)
}

/// There is depth left for `k` fours.
pub open spec fn deep_enough(depth: int, max_depth: int, k: nat) -> bool {
    k == 1 || depth + 2 * (k - 1) < max_depth
}

/// Whatever begins a win by fours is seen to win.
proof fn lemma_sees_begin(s: rules::Cells, attacker: Piece, mv: Position, depth: int, max_depth: int, k: nat)
    requires
        rules::is_cells(s),
        begins_fours(s, attacker, mv, k),
        deep_enough(depth, max_depth, k),
    ensures
        vcf::next_four_wins(s, mv, attacker, depth, max_depth),
    decreases k, 0int,
{
    let t = rules::put(s, mv, attacker);
    let defender = rules::other(attacker);
    lemma_ways(t, attacker);
    lemma_ways(t, defender);
    if !rules::would_win(s, mv, attacker) && !two_ways(t, attacker) {
        let w = choose|w: Position| #[trigger]
            only_way(t, attacker, w) && wins_by_fours(rules::put(t, w, defender), attacker, (k - 1) as nat);
        let blocked = rules::put(t, w, defender);
        let next = choose|next: Position| #[trigger]
            rules::is_free(blocked, next) && begins_fours(blocked, attacker, next, (k - 1) as nat);
        assert(begins_fours(blocked, attacker, next, (k - 1) as nat));
        lemma_sees_fours(blocked, attacker, depth + 2, max_depth, (k - 1) as nat);
    }
}

/// Whatever is won by fours is seen to be won.
proof fn lemma_sees_fours(s: rules::Cells, attacker: Piece, depth: int, max_depth: int, k: nat)
    requires
        rules::is_cells(s),
        wins_by_fours(s, attacker, k),
        deep_enough(depth, max_depth, k),
    ensures
        vcf::some_four_wins(s, attacker, depth, max_depth, 0),
    decreases k, 1int,
{
    let mv = choose|mv: Position| #[trigger] rules::is_free(s, mv) && begins_fours(s, attacker, mv, k);
    lemma_begins_is_threat(s, attacker, mv, k);
    if rules::has_winning_move(s, attacker) {
        let i = lemma_five_is_threat(s, attacker, 25_000);
        lemma_some_four(s, attacker, depth, max_depth, 0, i);
    } else {
        let i = lemma_is_threat(s, attacker, 25_000, mv);
        lemma_sees_begin(s, attacker, mv, depth, max_depth, k);
        lemma_some_four(s, attacker, depth, max_depth, 0, i);
    }
}

proof fn lemma_some_four(s: rules::Cells, attacker: Piece, depth: int, max_depth: int, i: int, k: int)
    requires
        0 <= i <= k < super::threats(s, attacker, 25_000).len(),
        vcf::next_four_wins(s, super::threats(s, attacker, 25_000)[k], attacker, depth, max_depth),
    ensures
        vcf::some_four_wins(s, attacker, depth, max_depth, i),
    decreases k - i,
{
    if i < k {
        lemma_some_four(s, attacker, depth, max_depth, i + 1, k);
    }
}

/// What is seen to win begins a win by fours, for which there is depth.
proof fn lemma_begin_seen(s: rules::Cells, attacker: Piece, mv: Position, depth: int, max_depth: int) -> (k: nat)
    requires
        rules::is_cells(s),
        rules::is_free(s, mv),
        vcf::next_four_wins(s, mv, attacker, depth, max_depth),
    ensures
        begins_fours(s, attacker, mv, k),
        deep_enough(depth, max_depth, k),
    decreases vcf::plies_left(depth, max_depth), 0int, 0int,
{
    let t = rules::put(s, mv, attacker);
    let defender = rules::other(attacker);
    lemma_ways(t, attacker);
    lemma_ways(t, defender);
    if rules::would_win(s, mv, attacker) || no_way(t, defender) && two_ways(t, attacker) {
        1
    } else {
        let w = rules::winning_moves(t, attacker)[0];
        assert(only_way(t, attacker, w));
        let blocked = rules::put(t, w, defender);
        let k = lemma_fours_seen(blocked, attacker, depth + 2, max_depth, 0);
        assert(begins_fours(s, attacker, mv, k + 1));
        k + 1
    }
}

proof fn lemma_fours_seen(s: rules::Cells, attacker: Piece, depth: int, max_depth: int, i: int) -> (k: nat)
    requires
        rules::is_cells(s),
        vcf::some_four_wins(s, attacker, depth, max_depth, i),
    ensures
        wins_by_fours(s, attacker, k),
        deep_enough(depth, max_depth, k),
        k > 0,
    decreases
            vcf::plies_left(depth, max_depth),
            1int,
            super::threats(s, attacker, 25_000).len() - i,
{
    let fours = super::threats(s, attacker, 25_000);
    if vcf::next_four_wins(s, fours[i], attacker, depth, max_depth) {
        super::lemma_threat_is_free(s, attacker, 25_000, i);
        let k = lemma_begin_seen(s, attacker, fours[i], depth, max_depth);
        assert(rules::is_free(s, fours[i]) && begins_fours(s, attacker, fours[i], k));
        k
    } else {
        lemma_fours_seen(s, attacker, depth, max_depth, i + 1)
    }
}

/// The first of `moves` that wins: it wins, none before it does, and there is one where any wins.
proof fn lemma_first_from(moves: Seq<Position>, wins: spec_fn(Position) -> bool, i: int)
    requires
        0 <= i,
    ensures
        match vcf::first_from(moves, wins, i) {
            Some(p) => wins(p) && exists|k: int|
                i <= k < moves.len() && #[trigger] moves[k] == p && forall|j: int|
                    i <= j < k ==> !wins(#[trigger] moves[j]),
            None => forall|j: int| i <= j < moves.len() ==> !wins(#[trigger] moves[j]),
        },
    decreases moves.len() - i,
{
    if i < moves.len() {
        if wins(moves[i]) {
            assert(moves[i] == vcf::first_from(moves, wins, i)->0);
        } else {
            lemma_first_from(moves, wins, i + 1);
            if let Some(p) = vcf::first_from(moves, wins, i + 1) {
                let k = choose|k: int|
                    i + 1 <= k < moves.len() && #[trigger] moves[k] == p && forall|j: int|
                        i + 1 <= j < k ==> !wins(#[trigger] moves[j]);
                assert(moves[k] == p);
            }
        }
    }
}

/// The search for consecutive fours finds every win by fours that the rules allow, if there is depth for
/// it: two plies for each four but the last.
pub proof fn law_vcf_misses_no_win(s: rules::Cells, attacker: Piece, max_depth: int, k: nat)
    requires
        rules::is_cells(s),
        wins_by_fours(s, attacker, k),
        k == 1 || 2 * (k - 1) < max_depth,
    ensures
        vcf::vcf_win(s, attacker, max_depth) is Some,
{
    let moves = super::threats(s, attacker, 25_000);
    let wins = vcf::starts_win(s, attacker, max_depth);
    let mv = choose|mv: Position| #[trigger] rules::is_free(s, mv) && begins_fours(s, attacker, mv, k);
    lemma_begins_is_threat(s, attacker, mv, k);
    lemma_first_from(moves, wins, 0);
    if rules::has_winning_move(s, attacker) {
        let i = lemma_five_is_threat(s, attacker, 25_000);
        assert(wins(moves[i]));
    } else {
        let i = lemma_is_threat(s, attacker, 25_000, mv);
        lemma_sees_begin(s, attacker, mv, 0, max_depth, k);
        assert(wins(moves[i]));
    }
}

/// What the search for consecutive fours finds begins a win by fours for which there is depth, and no
/// other such move scores more.
pub proof fn law_vcf_finds_the_best_win(s: rules::Cells, attacker: Piece, max_depth: int) -> (k: nat)
    requires
        rules::is_cells(s),
        vcf::vcf_win(s, attacker, max_depth) is Some,
    ensures
        begins_fours(s, attacker, vcf::vcf_win(s, attacker, max_depth)->0, k),
        k == 1 || 2 * (k - 1) < max_depth,
        forall|mv: Position, n: nat| #[trigger]
            begins_fours(s, attacker, mv, n) && (n == 1 || 2 * (n - 1) < max_depth) ==> rules::score(s, mv, attacker)
                <= rules::score(s, vcf::vcf_win(s, attacker, max_depth)->0, attacker),
{
    let moves = super::threats(s, attacker, 25_000);
    let wins = vcf::starts_win(s, attacker, max_depth);
    let key = super::by_attack(s, attacker);
    lemma_first_from(moves, wins, 0);
    let p = vcf::vcf_win(s, attacker, max_depth)->0;
    let at = choose|k: int|
        0 <= k < moves.len() && #[trigger] moves[k] == p && forall|j: int| 0 <= j < k ==> !wins(#[trigger] moves[j]);
    super::lemma_threat_is_free(s, attacker, 25_000, at);
    let k = lemma_begin_seen(s, attacker, p, 0, max_depth);
    ranking::lemma_ranked(rules::candidates(s).filter(super::reaches(s, attacker, 25_000)), key);
    assert forall|mv: Position, n: nat| #[trigger]
        begins_fours(s, attacker, mv, n) && (n == 1 || 2 * (n - 1) < max_depth) implies rules::score(s, mv, attacker)
        <= rules::score(s, p, attacker) by {
        lemma_begins_is_threat(s, attacker, mv, n);
        lemma_sees_begin(s, attacker, mv, 0, max_depth, n);
        if rules::score(s, mv, attacker) >= 25_000 && rules::candidates(s).contains(mv) {
            let i = lemma_is_threat(s, attacker, 25_000, mv);
            assert(wins(moves[i]));
            assert(i >= at);
            assert(key(moves[at]) >= key(moves[i]));
        } else {
            if rules::score(s, mv, attacker) > 80 {
                score_laws::law_what_scores_is_a_candidate(s, mv, attacker);
            }
            lemma_threat_scores(s, attacker, 25_000, at);
        }
    }
    k
}

/// Every threat reaches the threshold.
proof fn lemma_threat_scores(s: rules::Cells, attacker: Piece, threshold: int, i: int)
    requires
        0 <= i < super::threats(s, attacker, threshold).len(),
    ensures
        rules::score(s, super::threats(s, attacker, threshold)[i], attacker) >= threshold,
        rules::candidates(s).contains(super::threats(s, attacker, threshold)[i]),
{
    let pred = super::reaches(s, attacker, threshold);
    let kept = rules::candidates(s).filter(pred);
    let threats = super::threats(s, attacker, threshold);
    rules::lemma_filter_members(rules::candidates(s), pred);
    ranking::lemma_ranked(kept, super::by_attack(s, attacker));
    assert(threats.contains(threats[i]));
    assert(kept.contains(threats[i]));
}

/// There is depth left for `k` fours where the last 20 are looked for without counting.
pub open spec fn deep_enough_after(depth: int, max_depth: int, k: nat) -> bool {
    k <= 20 || depth + 2 * (k - 21) < max_depth
}

/// Whatever begins a win by fours is seen to win by threats.
proof fn lemma_threat_sees_begin(s: rules::Cells, attacker: Piece, mv: Position, depth: int, max_depth: int, k: nat)
    requires
        rules::is_cells(s),
        begins_fours(s, attacker, mv, k),
        deep_enough_after(depth, max_depth, k),
    ensures
        vct::next_threat_wins(s, mv, attacker, depth, max_depth),
    decreases k, 0int,
{
    let t = rules::put(s, mv, attacker);
    let defender = rules::other(attacker);
    lemma_ways(t, attacker);
    lemma_ways(t, defender);
    if !rules::would_win(s, mv, attacker) && !two_ways(t, attacker) {
        let w = choose|w: Position| #[trigger]
            only_way(t, attacker, w) && wins_by_fours(rules::put(t, w, defender), attacker, (k - 1) as nat);
        let blocked = rules::put(t, w, defender);
        let next = choose|next: Position| #[trigger]
            rules::is_free(blocked, next) && begins_fours(blocked, attacker, next, (k - 1) as nat);
        assert(begins_fours(blocked, attacker, next, (k - 1) as nat));
        lemma_threats_see_fours(blocked, attacker, depth + 2, max_depth, (k - 1) as nat);
    }
}

/// Whatever is won by fours is seen to be won by fours or by threats.
proof fn lemma_threats_see_fours(s: rules::Cells, attacker: Piece, depth: int, max_depth: int, k: nat)
    requires
        rules::is_cells(s),
        wins_by_fours(s, attacker, k),
        deep_enough_after(depth, max_depth, k),
    ensures
        k <= 20 ==> vcf::vcf_win(s, attacker, 40) is Some,
        vcf::vcf_win(s, attacker, 40) is Some || vct::some_threat_wins(s, attacker, depth, max_depth, 0),
    decreases k, 1int,
{
    let mv = choose|mv: Position| #[trigger] rules::is_free(s, mv) && begins_fours(s, attacker, mv, k);
    if k <= 20 {
        law_vcf_misses_no_win(s, attacker, 40, k);
    } else if rules::has_winning_move(s, attacker) {
        let five = rules::winning_moves(s, attacker)[0];
        laws::law_winning_moves_are_all(s, attacker);
        assert(rules::would_win(s, five, attacker));
        assert(rules::is_free(s, five) && begins_fours(s, attacker, five, 1));
        law_vcf_misses_no_win(s, attacker, 40, 1);
    } else {
        lemma_begins_is_threat(s, attacker, mv, k);
        let i = lemma_is_threat(s, attacker, 8_000, mv);
        lemma_threat_sees_begin(s, attacker, mv, depth, max_depth, k);
        lemma_some_threat(s, attacker, depth, max_depth, 0, i);
    }
}

proof fn lemma_some_threat(s: rules::Cells, attacker: Piece, depth: int, max_depth: int, i: int, k: int)
    requires
        0 <= i <= k < super::threats(s, attacker, 8_000).len(),
        vct::next_threat_wins(s, super::threats(s, attacker, 8_000)[k], attacker, depth, max_depth),
    ensures
        vct::some_threat_wins(s, attacker, depth, max_depth, i),
    decreases k - i,
{
    if i < k {
        lemma_some_threat(s, attacker, depth, max_depth, i + 1, k);
    }
}

/// What is seen to win by threats begins a win by fours, for which there is depth.
proof fn lemma_threat_seen(s: rules::Cells, attacker: Piece, mv: Position, depth: int, max_depth: int) -> (k: nat)
    requires
        rules::is_cells(s),
        rules::is_free(s, mv),
        depth < max_depth,
        vct::next_threat_wins(s, mv, attacker, depth, max_depth),
    ensures
        begins_fours(s, attacker, mv, k),
        deep_enough_after(depth, max_depth, k),
    decreases vcf::plies_left(depth, max_depth), 0int, 0int,
{
    let t = rules::put(s, mv, attacker);
    let defender = rules::other(attacker);
    lemma_ways(t, attacker);
    lemma_ways(t, defender);
    if rules::would_win(s, mv, attacker) || no_way(t, defender) && two_ways(t, attacker) {
        1
    } else {
        let w = rules::winning_moves(t, attacker)[0];
        assert(only_way(t, attacker, w));
        let blocked = rules::put(t, w, defender);
        let k = if vcf::vcf_win(blocked, attacker, 40) is Some {
            lemma_vcf_seen(blocked, attacker)
        } else {
            lemma_some_threat_seen(blocked, attacker, depth + 2, max_depth, 0)
        };
        assert(begins_fours(s, attacker, mv, k + 1));
        k + 1
    }
}

proof fn lemma_vcf_seen(s: rules::Cells, attacker: Piece) -> (k: nat)
    requires
        rules::is_cells(s),
        vcf::vcf_win(s, attacker, 40) is Some,
    ensures
        wins_by_fours(s, attacker, k),
        0 < k <= 20,
{
    let p = vcf::vcf_win(s, attacker, 40)->0;
    let k = law_vcf_finds_the_best_win(s, attacker, 40);
    assert(rules::is_free(s, p) && begins_fours(s, attacker, p, k));
    k
}

proof fn lemma_some_threat_seen(s: rules::Cells, attacker: Piece, depth: int, max_depth: int, i: int) -> (k: nat)
    requires
        rules::is_cells(s),
        depth < max_depth,
        vct::some_threat_wins(s, attacker, depth, max_depth, i),
    ensures
        wins_by_fours(s, attacker, k),
        deep_enough_after(depth, max_depth, k),
        k > 0,
    decreases
            vcf::plies_left(depth, max_depth),
            1int,
            super::threats(s, attacker, 8_000).len() - i,
{
    let moves = super::threats(s, attacker, 8_000);
    if vct::next_threat_wins(s, moves[i], attacker, depth, max_depth) {
        super::lemma_threat_is_free(s, attacker, 8_000, i);
        let k = lemma_threat_seen(s, attacker, moves[i], depth, max_depth);
        assert(rules::is_free(s, moves[i]) && begins_fours(s, attacker, moves[i], k));
        k
    } else {
        lemma_some_threat_seen(s, attacker, depth, max_depth, i + 1)
    }
}

/// The search for consecutive threats finds every win by fours that the rules allow, if there is depth
/// for it: two plies for each move before the last twenty.
pub proof fn law_vct_misses_no_win(s: rules::Cells, attacker: Piece, max_depth: int, k: nat)
    requires
        rules::is_cells(s),
        wins_by_fours(s, attacker, k),
        k <= 20 || 2 * (k - 21) < max_depth,
    ensures
        vct::vct_win(s, attacker, max_depth) is Some,
{
    let moves = super::threats(s, attacker, 8_000);
    let wins = vct::starts_win(s, attacker, max_depth);
    let mv = choose|mv: Position| #[trigger] rules::is_free(s, mv) && begins_fours(s, attacker, mv, k);
    lemma_threats_see_fours(s, attacker, 0, max_depth, k);
    if vcf::vcf_win(s, attacker, 40) is None {
        lemma_first_from(moves, wins, 0);
        lemma_begins_is_threat(s, attacker, mv, k);
        if rules::has_winning_move(s, attacker) {
            super::forced::law_vcf_sees_immediate_wins(s, attacker, 40);
        }
        let i = lemma_is_threat(s, attacker, 8_000, mv);
        lemma_threat_sees_begin(s, attacker, mv, 0, max_depth, k);
        assert(wins(moves[i]));
    }
}

/// What the search for consecutive threats finds begins a win by fours for which there is depth. Where
/// twenty fours are not enough, no other such move scores more.
pub proof fn law_vct_finds_the_best_win(s: rules::Cells, attacker: Piece, max_depth: int) -> (k: nat)
    requires
        rules::is_cells(s),
        vct::vct_win(s, attacker, max_depth) is Some,
    ensures
        begins_fours(s, attacker, vct::vct_win(s, attacker, max_depth)->0, k),
        k <= 20 || 2 * (k - 21) < max_depth,
        !wins_by_fours(s, attacker, 20) ==> forall|mv: Position, n: nat| #[trigger]
            begins_fours(s, attacker, mv, n) && (n <= 20 || 2 * (n - 21) < max_depth) ==> rules::score(s, mv, attacker)
                <= rules::score(s, vct::vct_win(s, attacker, max_depth)->0, attacker),
{
    let p = vct::vct_win(s, attacker, max_depth)->0;
    if vcf::vcf_win(s, attacker, 40) is Some {
        let k = law_vcf_finds_the_best_win(s, attacker, 40);
        lemma_more_fours(s, attacker, p, k, 20);
        assert(rules::is_free(s, p) && begins_fours(s, attacker, p, 20));
        k
    } else {
        let moves = super::threats(s, attacker, 8_000);
        let wins = vct::starts_win(s, attacker, max_depth);
        let key = super::by_attack(s, attacker);
        lemma_first_from(moves, wins, 0);
        let at = choose|k: int|
            0 <= k < moves.len() && #[trigger] moves[k] == p && forall|j: int| 0 <= j < k ==> !wins(#[trigger] moves[j]);
        super::lemma_threat_is_free(s, attacker, 8_000, at);
        let k = lemma_threat_seen(s, attacker, p, 0, max_depth);
        ranking::lemma_ranked(rules::candidates(s).filter(super::reaches(s, attacker, 8_000)), key);
        assert forall|mv: Position, n: nat| #[trigger]
            begins_fours(s, attacker, mv, n) && (n <= 20 || 2 * (n - 21) < max_depth) implies rules::score(
            s,
            mv,
            attacker,
        ) <= rules::score(s, p, attacker) by {
            lemma_begins_is_threat(s, attacker, mv, n);
            if rules::has_winning_move(s, attacker) {
                super::forced::law_vcf_sees_immediate_wins(s, attacker, 40);
            }
            let i = lemma_is_threat(s, attacker, 8_000, mv);
            lemma_threat_sees_begin(s, attacker, mv, 0, max_depth, n);
            assert(wins(moves[i]));
            assert(i >= at);
            assert(key(moves[at]) >= key(moves[i]));
        }
        k
    }
}

/// More fours do no harm.
pub proof fn lemma_more_fours(s: rules::Cells, attacker: Piece, mv: Position, k: nat, n: nat)
    requires
        begins_fours(s, attacker, mv, k),
        k <= n,
    ensures
        begins_fours(s, attacker, mv, n),
    decreases k,
{
    let t = rules::put(s, mv, attacker);
    let defender = rules::other(attacker);
    if !rules::would_win(s, mv, attacker) && !two_ways(t, attacker) {
        let w = choose|w: Position| #[trigger]
            only_way(t, attacker, w) && wins_by_fours(rules::put(t, w, defender), attacker, (k - 1) as nat);
        let blocked = rules::put(t, w, defender);
        let next = choose|next: Position| #[trigger]
            rules::is_free(blocked, next) && begins_fours(blocked, attacker, next, (k - 1) as nat);
        lemma_more_fours(blocked, attacker, next, (k - 1) as nat, (n - 1) as nat);
        assert(rules::is_free(blocked, next) && begins_fours(blocked, attacker, next, (n - 1) as nat));
        assert(only_way(t, attacker, w) && wins_by_fours(blocked, attacker, (n - 1) as nat));
    }
}

/// The look for consecutive fours asks for the time before every move that it tries: where none wins, at
/// least once for each of the fours; where one does, at least once for each up to it.
pub proof fn law_every_four_asks_for_the_time(s: rules::Cells, attacker: Piece, max_depth: int, k: int)
    requires
        0 <= k < super::threats(s, attacker, 25_000).len(),
        forall|j: int|
            0 <= j < k ==> !vcf::next_four_wins(s, #[trigger] super::threats(s, attacker, 25_000)[j], attacker, 0, max_depth),
    ensures
        vcf::vcf_asks(s, attacker, max_depth) >= k + 1,
{
    lemma_four_asks(s, attacker, max_depth, 0, k);
}

proof fn lemma_four_asks(s: rules::Cells, attacker: Piece, max_depth: int, i: int, k: int)
    requires
        0 <= i <= k < super::threats(s, attacker, 25_000).len(),
        forall|j: int|
            0 <= j < k ==> !vcf::next_four_wins(s, #[trigger] super::threats(s, attacker, 25_000)[j], attacker, 0, max_depth),
    ensures
        vcf::some_four_asks(s, attacker, 0, max_depth, i) >= k - i + 1,
    decreases k - i,
{
    if i < k {
        assert(!vcf::next_four_wins(s, super::threats(s, attacker, 25_000)[i], attacker, 0, max_depth));
        lemma_four_asks(s, attacker, max_depth, i + 1, k);
    }
}

/// The look for consecutive threats asks for the time as often as the one for fours that it begins with, and
/// then before every threat that it tries.
pub proof fn law_every_threat_asks_for_the_time(s: rules::Cells, attacker: Piece, max_depth: int, k: int)
    requires
        vcf::vcf_win(s, attacker, 40) is None,
        max_depth > 0,
        0 <= k < super::threats(s, attacker, 8_000).len(),
        forall|j: int|
            0 <= j < k ==> !vct::next_threat_wins(s, #[trigger] super::threats(s, attacker, 8_000)[j], attacker, 0, max_depth),
    ensures
        vct::vct_asks(s, attacker, max_depth) >= vcf::vcf_asks(s, attacker, 40) + k + 1,
{
    lemma_threat_asks(s, attacker, max_depth, 0, k);
}

proof fn lemma_threat_asks(s: rules::Cells, attacker: Piece, max_depth: int, i: int, k: int)
    requires
        0 <= i <= k < super::threats(s, attacker, 8_000).len(),
        forall|j: int|
            0 <= j < k ==> !vct::next_threat_wins(s, #[trigger] super::threats(s, attacker, 8_000)[j], attacker, 0, max_depth),
    ensures
        vct::some_threat_asks(s, attacker, 0, max_depth, i) >= k - i + 1,
    decreases k - i,
{
    if i < k {
        assert(!vct::next_threat_wins(s, super::threats(s, attacker, 8_000)[i], attacker, 0, max_depth));
        lemma_threat_asks(s, attacker, max_depth, i + 1, k);
    }
}

} // verus!
