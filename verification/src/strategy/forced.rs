//! What a forced win is, and that the strategies find such wins only.
use vstd::prelude::*;

use crate::board::{Piece, Position};
use crate::laws;
use crate::rules;

use super::vcf;
use super::vct;

verus! {

/// The attacker, whose move it is, can make five in a row within `n` moves of their own, whatever
/// the defender plays.
pub open spec fn forces(s: rules::Cells, attacker: Piece, n: nat) -> bool
    decreases n, 1int,
{
    n > 0 && exists|mv: Position| #[trigger] rules::is_free(s, mv) && wins_with(s, attacker, mv, n)
}

/// The attacker's move `mv` makes five in a row, or leaves a position that the defender has lost
/// after `n - 1` more moves of the attacker.
pub open spec fn wins_with(s: rules::Cells, attacker: Piece, mv: Position, n: nat) -> bool
    decreases n, 0int,
{
    n > 0 && (rules::would_win(s, mv, attacker) || lost(rules::put(s, mv, attacker), attacker, (n - 1) as nat))
}

/// The defender, whose move it is, has a free cell but no win, and after each of their moves the
/// attacker can make five in a row within `n` moves.
pub open spec fn lost(s: rules::Cells, attacker: Piece, n: nat) -> bool
    decreases n, 2int,
{
    &&& exists|d: Position| #[trigger] rules::is_free(s, d)
    &&& forall|d: Position| #[trigger]
        rules::is_free(s, d) ==> !rules::would_win(s, d, rules::other(attacker)) && forces(
            rules::put(s, d, rules::other(attacker)),
            attacker,
            n,
        )
}

/// More moves do no harm.
pub proof fn lemma_forces_longer(s: rules::Cells, attacker: Piece, n: nat, m: nat)
    requires
        forces(s, attacker, n),
        n <= m,
    ensures
        forces(s, attacker, m),
    decreases n, 1int,
{
    let mv = choose|mv: Position| #[trigger] rules::is_free(s, mv) && wins_with(s, attacker, mv, n);
    if !rules::would_win(s, mv, attacker) {
        lemma_lost_longer(rules::put(s, mv, attacker), attacker, (n - 1) as nat, (m - 1) as nat);
    }
    assert(rules::is_free(s, mv) && wins_with(s, attacker, mv, m));
}

/// More moves do no harm.
pub proof fn lemma_lost_longer(s: rules::Cells, attacker: Piece, n: nat, m: nat)
    requires
        lost(s, attacker, n),
        n <= m,
    ensures
        lost(s, attacker, m),
    decreases n, 2int,
{
    let defender = rules::other(attacker);
    assert forall|d: Position| #[trigger] rules::is_free(s, d) implies !rules::would_win(s, d, defender) && forces(
        rules::put(s, d, defender),
        attacker,
        m,
    ) by {
        assert(forces(rules::put(s, d, defender), attacker, n));
        lemma_forces_longer(rules::put(s, d, defender), attacker, n, m);
    }
}

proof fn lemma_same_run(s: rules::Cells, t: rules::Cells, r: int, c: int, dr: int, dc: int, color: Piece)
    requires
        forall|i: int, j: int| #[trigger] rules::is_color(s, i, j, color) == rules::is_color(t, i, j, color),
    ensures
        rules::run(s, r, c, dr, dc, color) == rules::run(t, r, c, dr, dc, color),
    decreases rules::steps_left(r, c, dr, dc),
{
    assert(rules::is_color(s, r, c, color) == rules::is_color(t, r, c, color));
    if rules::is_color(s, r, c, color) && (dr != 0 || dc != 0) {
        lemma_same_run(s, t, r + dr, c + dc, dr, dc, color);
    }
}

/// A threatening win stays while the defender plays elsewhere.
proof fn lemma_threat_stays(s: rules::Cells, w: Position, d: Position, attacker: Piece)
    requires
        rules::is_cells(s),
        rules::would_win(s, w, attacker),
        rules::is_free(s, d),
        w != d,
    ensures
        rules::would_win(rules::put(s, d, rules::other(attacker)), w, attacker),
{
    let t = rules::put(s, d, rules::other(attacker));
    assert forall|i: int, j: int| #[trigger]
        rules::is_color(s, i, j, attacker) == rules::is_color(t, i, j, attacker) by {}
    let r = w.row as int;
    let c = w.column as int;
    let k = choose|k: int|
        0 <= k < 4 && #[trigger] rules::direction_wins(
            s,
            r,
            c,
            rules::direction(k).0,
            rules::direction(k).1,
            attacker,
        );
    let dr = rules::direction(k).0;
    let dc = rules::direction(k).1;
    lemma_same_run(s, t, r + dr, c + dc, dr, dc, attacker);
    lemma_same_run(s, t, r - dr, c - dc, -dr, -dc, attacker);
    assert(rules::direction_wins(t, r, c, dr, dc, attacker));
}

/// A winning move is a forced win.
proof fn lemma_win_forces(s: rules::Cells, w: Position, attacker: Piece)
    requires
        rules::would_win(s, w, attacker),
    ensures
        forces(s, attacker, 1),
{
    assert(rules::is_free(s, w) && wins_with(s, attacker, w, 1));
}

/// Two threatening wins cannot both be blocked.
pub proof fn lemma_double_threat(s: rules::Cells, attacker: Piece)
    requires
        rules::is_cells(s),
        rules::winning_moves(s, attacker).len() >= 2,
        !rules::has_winning_move(s, rules::other(attacker)),
    ensures
        lost(s, attacker, 1),
{
    let defender = rules::other(attacker);
    let wins = rules::winning_moves(s, attacker);
    laws::law_winning_moves_are_all(s, attacker);
    laws::law_winning_moves_are_all(s, defender);
    assert(rules::would_win(s, wins[0], attacker));
    assert(rules::would_win(s, wins[1], attacker));
    assert(wins[0] != wins[1]);
    assert(rules::is_free(s, wins[0]));
    assert forall|d: Position| #[trigger] rules::is_free(s, d) implies !rules::would_win(s, d, defender) && forces(
        rules::put(s, d, defender),
        attacker,
        1,
    ) by {
        let w = if d == wins[0] {
            wins[1]
        } else {
            wins[0]
        };
        lemma_threat_stays(s, w, d, attacker);
        lemma_win_forces(rules::put(s, d, defender), w, attacker);
    }
}

/// One threatening win has to be blocked, and the block loses too.
pub proof fn lemma_single_threat(s: rules::Cells, attacker: Piece, n: nat)
    requires
        rules::is_cells(s),
        rules::winning_moves(s, attacker).len() > 0,
        !rules::has_winning_move(s, rules::other(attacker)),
        forces(rules::put(s, rules::winning_moves(s, attacker)[0], rules::other(attacker)), attacker, n),
    ensures
        lost(s, attacker, n),
{
    let defender = rules::other(attacker);
    let w = rules::winning_moves(s, attacker)[0];
    laws::law_winning_moves_are_all(s, attacker);
    laws::law_winning_moves_are_all(s, defender);
    assert(rules::would_win(s, w, attacker));
    assert(rules::is_free(s, w));
    assert(n > 0);
    assert forall|d: Position| #[trigger] rules::is_free(s, d) implies !rules::would_win(s, d, defender) && forces(
        rules::put(s, d, defender),
        attacker,
        n,
    ) by {
        if d != w {
            lemma_threat_stays(s, w, d, attacker);
            lemma_win_forces(rules::put(s, d, defender), w, attacker);
            lemma_forces_longer(rules::put(s, d, defender), attacker, 1, n);
        }
    }
}

/// The number of moves after which a win by consecutive fours is over.
proof fn lemma_four_wins(s: rules::Cells, attacker: Piece, depth: int, max_depth: int) -> (n: nat)
    requires
        rules::is_cells(s),
        vcf::four_wins(s, attacker, depth, max_depth),
    ensures
        lost(s, attacker, n),
    decreases vcf::plies_left(depth, max_depth), 2int, 0int,
{
    let wins = rules::winning_moves(s, attacker);
    if wins.len() >= 2 {
        lemma_double_threat(s, attacker);
        1
    } else {
        laws::law_winning_moves_are_all(s, attacker);
        assert(rules::would_win(s, wins[0], attacker));
        let n = lemma_some_four_wins(rules::put(s, wins[0], rules::other(attacker)), attacker, depth, max_depth, 0);
        lemma_single_threat(s, attacker, n);
        n
    }
}

proof fn lemma_some_four_wins(s: rules::Cells, attacker: Piece, depth: int, max_depth: int, i: int) -> (n: nat)
    requires
        rules::is_cells(s),
        vcf::some_four_wins(s, attacker, depth, max_depth, i),
    ensures
        forces(s, attacker, n),
    decreases
            vcf::plies_left(depth, max_depth),
            1int,
            super::threats(s, attacker, 25_000).len() - i,
{
    let fours = super::threats(s, attacker, 25_000);
    if vcf::next_four_wins(s, fours[i], attacker, depth, max_depth) {
        super::lemma_threat_is_free(s, attacker, 25_000, i);
        let n = lemma_next_four_wins(s, fours[i], attacker, depth, max_depth);
        assert(rules::is_free(s, fours[i]) && wins_with(s, attacker, fours[i], n));
        n
    } else {
        lemma_some_four_wins(s, attacker, depth, max_depth, i + 1)
    }
}

proof fn lemma_next_four_wins(s: rules::Cells, mv: Position, attacker: Piece, depth: int, max_depth: int) -> (n: nat)
    requires
        rules::is_cells(s),
        rules::is_free(s, mv),
        vcf::next_four_wins(s, mv, attacker, depth, max_depth),
    ensures
        wins_with(s, attacker, mv, n),
    decreases vcf::plies_left(depth, max_depth), 0int, 0int,
{
    let t = rules::put(s, mv, attacker);
    if rules::would_win(s, mv, attacker) {
        1
    } else if rules::winning_moves(t, attacker).len() >= 2 {
        lemma_double_threat(t, attacker);
        2
    } else {
        let n = lemma_four_wins(t, attacker, depth + 2, max_depth);
        n + 1
    }
}

proof fn lemma_first_from(moves: Seq<Position>, wins: spec_fn(Position) -> bool, i: int)
    requires
        vcf::first_from(moves, wins, i) is Some,
        0 <= i,
    ensures
        wins(vcf::first_from(moves, wins, i)->0),
        exists|k: int| i <= k < moves.len() && #[trigger] moves[k] == vcf::first_from(moves, wins, i)->0,
    decreases moves.len() - i,
{
    if i < moves.len() && !wins(moves[i]) {
        lemma_first_from(moves, wins, i + 1);
    } else {
        assert(moves[i] == vcf::first_from(moves, wins, i)->0);
    }
}

/// What the search for consecutive fours returns is the first move of a forced win: the cell is
/// free, and playing it the attacker makes five in a row within some number of moves, whatever the
/// defender plays.
pub proof fn law_vcf_finds_forced_wins(s: rules::Cells, attacker: Piece, max_depth: int) -> (n: nat)
    requires
        rules::is_cells(s),
        vcf::vcf_win(s, attacker, max_depth) is Some,
    ensures
        rules::is_free(s, vcf::vcf_win(s, attacker, max_depth)->0),
        wins_with(s, attacker, vcf::vcf_win(s, attacker, max_depth)->0, n),
        forces(s, attacker, n),
{
    let moves = super::threats(s, attacker, 25_000);
    let wins = vcf::starts_win(s, attacker, max_depth);
    lemma_first_from(moves, wins, 0);
    let mv = vcf::vcf_win(s, attacker, max_depth)->0;
    let k = choose|k: int| 0 <= k < moves.len() && #[trigger] moves[k] == mv;
    super::lemma_threat_is_free(s, attacker, 25_000, k);
    let n = lemma_next_four_wins(s, mv, attacker, 0, max_depth);
    assert(rules::is_free(s, mv) && wins_with(s, attacker, mv, n));
    n
}

/// Where the attacker can make five at once, the search for consecutive fours returns such a move.
pub proof fn law_vcf_sees_immediate_wins(s: rules::Cells, attacker: Piece, max_depth: int)
    requires
        rules::is_cells(s),
        rules::has_winning_move(s, attacker),
    ensures
        vcf::vcf_win(s, attacker, max_depth) is Some,
        rules::would_win(s, vcf::vcf_win(s, attacker, max_depth)->0, attacker),
{
    let key = super::by_attack(s, attacker);
    let pred = super::reaches(s, attacker, 25_000);
    let kept = rules::candidates(s).filter(pred);
    let moves = super::threats(s, attacker, 25_000);
    let w = rules::winning_moves(s, attacker)[0];
    laws::law_winning_moves_are_all(s, attacker);
    rules::lemma_filter_members(rules::candidates(s), rules::winning(s, attacker));
    rules::lemma_filter_members(rules::candidates(s), pred);
    crate::ranking::lemma_ranked(kept, key);
    rules::law_million_means_five(s, w, attacker);
    assert(pred(w));
    assert(kept.contains(w));
    assert(moves.contains(w));
    let j = choose|j: int| 0 <= j < moves.len() && moves[j] == w;
    assert(key(moves[0]) >= key(moves[j]));
    rules::law_million_means_five(s, moves[0], attacker);
    assert(vcf::starts_win(s, attacker, max_depth)(moves[0]));
}

proof fn lemma_threats_win(s: rules::Cells, attacker: Piece, depth: int, max_depth: int) -> (n: nat)
    requires
        rules::is_cells(s),
        vct::threats_win(s, attacker, depth, max_depth),
    ensures
        forces(s, attacker, n),
    decreases vcf::plies_left(depth, max_depth), 2int, 0int,
{
    if vcf::vcf_win(s, attacker, 40) is Some {
        law_vcf_finds_forced_wins(s, attacker, 40)
    } else {
        lemma_some_threat_wins(s, attacker, depth, max_depth, 0)
    }
}

proof fn lemma_some_threat_wins(s: rules::Cells, attacker: Piece, depth: int, max_depth: int, i: int) -> (n: nat)
    requires
        rules::is_cells(s),
        vct::some_threat_wins(s, attacker, depth, max_depth, i),
    ensures
        forces(s, attacker, n),
    decreases
            vcf::plies_left(depth, max_depth),
            1int,
            super::threats(s, attacker, 8_000).len() - i,
{
    let moves = super::threats(s, attacker, 8_000);
    if vct::next_threat_wins(s, moves[i], attacker, depth, max_depth) {
        super::lemma_threat_is_free(s, attacker, 8_000, i);
        let n = lemma_next_threat_wins(s, moves[i], attacker, depth, max_depth);
        assert(rules::is_free(s, moves[i]) && wins_with(s, attacker, moves[i], n));
        n
    } else {
        lemma_some_threat_wins(s, attacker, depth, max_depth, i + 1)
    }
}

proof fn lemma_next_threat_wins(s: rules::Cells, mv: Position, attacker: Piece, depth: int, max_depth: int) -> (n: nat)
    requires
        rules::is_cells(s),
        rules::is_free(s, mv),
        vct::next_threat_wins(s, mv, attacker, depth, max_depth),
    ensures
        wins_with(s, attacker, mv, n),
    decreases vcf::plies_left(depth, max_depth), 0int, 0int,
{
    let t = rules::put(s, mv, attacker);
    if rules::would_win(s, mv, attacker) {
        1
    } else if rules::winning_moves(t, attacker).len() >= 2 {
        lemma_double_threat(t, attacker);
        2
    } else {
        let w = rules::winning_moves(t, attacker)[0];
        laws::law_winning_moves_are_all(t, attacker);
        assert(rules::would_win(t, w, attacker));
        let blocked = rules::put(t, w, rules::other(attacker));
        let n = if vcf::vcf_win(blocked, attacker, 40) is Some {
            law_vcf_finds_forced_wins(blocked, attacker, 40)
        } else {
            lemma_threats_win(blocked, attacker, depth + 2, max_depth)
        };
        lemma_single_threat(t, attacker, n);
        n + 1
    }
}

/// What the search for consecutive threats returns is the first move of a forced win.
pub proof fn law_vct_finds_forced_wins(s: rules::Cells, attacker: Piece, max_depth: int) -> (n: nat)
    requires
        rules::is_cells(s),
        vct::vct_win(s, attacker, max_depth) is Some,
    ensures
        rules::is_free(s, vct::vct_win(s, attacker, max_depth)->0),
        wins_with(s, attacker, vct::vct_win(s, attacker, max_depth)->0, n),
        forces(s, attacker, n),
{
    if vcf::vcf_win(s, attacker, 40) is Some {
        law_vcf_finds_forced_wins(s, attacker, 40)
    } else {
        let moves = super::threats(s, attacker, 8_000);
        let wins = vct::starts_win(s, attacker, max_depth);
        lemma_first_from(moves, wins, 0);
        let mv = vct::vct_win(s, attacker, max_depth)->0;
        let k = choose|k: int| 0 <= k < moves.len() && #[trigger] moves[k] == mv;
        super::lemma_threat_is_free(s, attacker, 8_000, k);
        let n = lemma_next_threat_wins(s, mv, attacker, 0, max_depth);
        assert(rules::is_free(s, mv) && wins_with(s, attacker, mv, n));
        n
    }
}

/// The search for consecutive threats finds every win that the search for consecutive fours finds.
pub proof fn law_vct_extends_vcf(s: rules::Cells, attacker: Piece, max_depth: int)
    ensures
        vcf::vcf_win(s, attacker, 40) is Some ==> vct::vct_win(s, attacker, max_depth) == vcf::vcf_win(s, attacker, 40),
{
}

} // verus!
