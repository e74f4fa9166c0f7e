//! Immediate wins and blocks, without lookahead.
use vstd::prelude::*;

use crate::board::{Piece, Position, SCORE_OPEN_FOUR, SCORE_OPEN_THREE};
use crate::engine::DecisionPlan;
use crate::game::GameSnapshot;
use crate::ranking;
use crate::rules;

use super::{build_plan, position_score, Strategy, StrategyKind};

verus! {

broadcast use crate::board::board_has_every_cell;

/// Plays an immediate win, else blocks one, else blocks an open four, else plays the candidate
/// worth most.
#[derive(Copy, Clone, Debug, Default)]
pub struct TacticalStrategy;

/// The score of a winning move: a quarter of the greatest `i32`.
pub const SCORE_WIN: i32 = 536_870_911;

/// The score of a move that blocks a win: a fifth of the greatest `i32`.
pub const SCORE_BLOCK_WIN: i32 = 429_496_729;

/// The score of a move that blocks an open four: a sixth of the greatest `i32`.
pub const SCORE_BLOCK_OPEN_FOUR: i32 = 357_913_941;

/// The last of those of `ps` that have the greatest key.
pub open spec fn last_best(ps: Seq<Position>, key: spec_fn(Position) -> int) -> Position
    decreases ps.len(),
{
    if ps.len() <= 1 {
        ps[0]
    } else {
        let best = last_best(ps.drop_last(), key);
        if key(ps.last()) >= key(best) {
            ps.last()
        } else {
            best
        }
    }
}

pub open spec fn tactical_reason(mine: int, theirs: int) -> Seq<char> {
    if mine >= 100_000 {
        "open four pressure"@
    } else if mine >= 8_000 {
        "threat building"@
    } else if theirs >= 8_000 {
        "block open three"@
    } else {
        "local tactical pressure"@
    }
}

/// The candidates on which `color` makes an open four or better.
pub open spec fn open_fours(s: rules::Cells, color: Piece) -> Seq<Position> {
    rules::candidates(s).filter(super::reaches(s, color, 100_000))
}

/// The cell on which the opponent's open four is blocked, if one threatens and there is no open
/// four of our own.
pub open spec fn open_four_block(s: rules::Cells, color: Piece) -> Option<Position> {
    let threats = open_fours(s, rules::other(color));
    if open_fours(s, color).len() == 0 && threats.len() > 0 {
        Some(last_best(threats, super::by_attack(s, rules::other(color))))
    } else {
        None
    }
}

/// What the tactical strategy chooses.
#[verifier::opaque]
pub open spec fn tactical_choice(s: rules::Cells, color: Piece) -> Option<super::Choice> {
    let opponent = rules::other(color);
    let ranked = ranking::ranked(rules::candidates(s), super::by_worth(s, color));
    if rules::has_winning_move(s, color) {
        Some((rules::winning_moves(s, color)[0], 536_870_911, "winning move"@))
    } else if rules::has_winning_move(s, opponent) {
        Some((rules::winning_moves(s, opponent)[0], 429_496_729, "must block opponent win"@))
    } else if open_four_block(s, color) is Some {
        Some((open_four_block(s, color)->0, 357_913_941, "block open four"@))
    } else if ranked.len() > 0 {
        let p = ranked[0];
        Some(
            (
                p,
                super::value(s, color, p),
                tactical_reason(rules::score(s, p, color), rules::score(s, p, opponent)),
            ),
        )
    } else {
        None
    }
}

/// The cell on which the opponent's open four is blocked before it cannot be blocked any more;
/// none where an open four of our own comes first.
pub fn find_open_four_block(snapshot: &GameSnapshot) -> (r: Option<Position>)
    ensures
        r == open_four_block(snapshot.board@, snapshot.my_color),
{
    let board = &snapshot.board;
    let color = snapshot.my_color;
    let opponent = color.opponent();
    let candidates = board.candidate_positions();
    let ghost mine = super::reaches(board@, color, 100_000);
    let ghost theirs = super::reaches(board@, opponent, 100_000);
    let ghost key = super::by_attack(board@, opponent);
    let mut best: Option<(Position, i32)> = None;
    let mut i: usize = 0;
    proof {
        reveal(Seq::filter);
    }
    while i < candidates.len()
        invariant
            i <= candidates@.len(),
            candidates@ == rules::candidates(board@),
            color == snapshot.my_color,
            board@ == snapshot.board@,
            opponent == rules::other(color),
            mine == super::reaches(board@, color, 100_000),
            theirs == super::reaches(board@, opponent, 100_000),
            key == super::by_attack(board@, opponent),
            candidates@.take(i as int).filter(mine).len() == 0,
            match best {
                Some(b) => candidates@.take(i as int).filter(theirs).len() > 0 && b.0 == last_best(
                    candidates@.take(i as int).filter(theirs),
                    key,
                ) && b.1 == key(b.0),
                None => candidates@.take(i as int).filter(theirs).len() == 0,
            },
        decreases candidates@.len() - i,
    {
        let position = candidates[i];
        proof {
            rules::lemma_filter_step(candidates@, mine, i as int);
            rules::lemma_filter_step(candidates@, theirs, i as int);
            let before = candidates@.take(i as int).filter(theirs);
            assert(before.push(position).drop_last() =~= before);
        }
        if board.score_move(position, color) >= SCORE_OPEN_FOUR {
            proof {
                rules::lemma_filter_prefix(candidates@, mine, i + 1);
            }
            return None;
        }
        let score = board.score_move(position, opponent);
        if score >= SCORE_OPEN_FOUR {
            best = match best {
                Some((p, b)) => if score >= b {
                    Some((position, score))
                } else {
                    Some((p, b))
                },
                None => Some((position, score)),
            };
        }
        i = i + 1;
    }
    assert(candidates@.take(i as int) =~= candidates@);
    match best {
        Some((position, _)) => Some(position),
        None => None,
    }
}

impl TacticalStrategy {
    /// The move to make, its score, and why.
    pub fn analyze(snapshot: &GameSnapshot) -> (r: Option<(Position, i32, String)>)
        ensures
            super::is_choice(r, tactical_choice(snapshot.board@, snapshot.my_color)),
    {
        proof {
            reveal(tactical_choice);
        }
        let board = &snapshot.board;
        let color = snapshot.my_color;
        let opponent = color.opponent();
        if let Some(position) = board.first_winning_move(color) {
            return Some((position, SCORE_WIN, "winning move".to_owned()));
        }
        if let Some(position) = board.first_winning_move(opponent) {
            return Some((position, SCORE_BLOCK_WIN, "must block opponent win".to_owned()));
        }
        if let Some(position) = find_open_four_block(snapshot) {
            return Some((position, SCORE_BLOCK_OPEN_FOUR, "block open four".to_owned()));
        }
        let ranked = super::ranked_candidates(board, color);
        if ranked.len() == 0 {
            return None;
        }
        let position = ranked[0];
        let mine = board.score_move(position, color);
        let theirs = board.score_move(position, opponent);
        let reason = if mine >= SCORE_OPEN_FOUR {
            "open four pressure"
        } else if mine >= SCORE_OPEN_THREE {
            "threat building"
        } else if theirs >= SCORE_OPEN_THREE {
            "block open three"
        } else {
            "local tactical pressure"
        };
        Some((position, position_score(snapshot, position), reason.to_owned()))
    }
}

impl Strategy for TacticalStrategy {
    fn name(&self) -> (r: &'static str)
        ensures
            r@ == "tactical"@,
    {
        "tactical"
    }

    fn select_move(&self, snapshot: &GameSnapshot) -> (r: Option<Position>)
        ensures
            r == super::cell_of(tactical_choice(snapshot.board@, snapshot.my_color)),
    {
        match Self::analyze(snapshot) {
            Some((position, _, _)) => Some(position),
            None => None,
        }
    }
}

/// What the tactical strategy plans: its choice, with what the cell is worth added to the score.
pub open spec fn tactical_plan(s: rules::Cells, color: Piece) -> Option<super::Choice> {
    match tactical_choice(s, color) {
        Some(c) => Some((c.0, c.1 + super::value(s, color, c.0), c.2)),
        None => None,
    }
}

/// The plan of the tactical strategy.
pub fn plan(snapshot: &GameSnapshot) -> (r: Option<DecisionPlan>)
    ensures
        super::is_plan(r, StrategyKind::Tactical, tactical_plan(snapshot.board@, snapshot.my_color)),
{
    match TacticalStrategy::analyze(snapshot) {
        Some((position, score, reason)) => {
            let worth = position_score(snapshot, position);
            proof {
                law_tactical_plays_a_free_cell(snapshot.board@, snapshot.my_color);
            }
            build_plan(StrategyKind::Tactical, Some((position, score + worth, reason)))
        },
        None => None,
    }
}

/// The last of the best is one of them.
pub proof fn lemma_last_best(ps: Seq<Position>, key: spec_fn(Position) -> int)
    requires
        ps.len() > 0,
    ensures
        ps.contains(last_best(ps, key)),
    decreases ps.len(),
{
    if ps.len() > 1 {
        lemma_last_best(ps.drop_last(), key);
        let best = last_best(ps.drop_last(), key);
        let i = choose|i: int| 0 <= i < ps.drop_last().len() && ps.drop_last()[i] == best;
        assert(ps[i] == best);
        assert(ps[ps.len() - 1] == ps.last());
    } else {
        assert(ps[0] == last_best(ps, key));
    }
}

/// An open four is blocked on a free cell.
pub proof fn lemma_block_is_free(s: rules::Cells, color: Piece)
    requires
        rules::is_cells(s),
    ensures
        open_four_block(s, color) matches Some(p) ==> rules::is_free(s, p),
{
    let opponent = rules::other(color);
    crate::laws::law_candidates(s);
    rules::lemma_filter_members(rules::candidates(s), super::reaches(s, opponent, 100_000));
    let fours = open_fours(s, opponent);
    if fours.len() > 0 {
        lemma_last_best(fours, super::by_attack(s, opponent));
    }
}

/// Every strategy that chooses among the candidates chooses a free cell: the tactical one does.
pub proof fn law_tactical_plays_a_free_cell(s: rules::Cells, color: Piece)
    requires
        rules::is_cells(s),
    ensures
        tactical_choice(s, color) is None <==> rules::stones(s) == 324,
        tactical_choice(s, color) matches Some(c) ==> rules::is_free(s, c.0) && 132 <= c.1 <= 536_870_911,
{
    reveal(tactical_choice);
    let opponent = rules::other(color);
    let candidates = rules::candidates(s);
    let key = super::by_worth(s, color);
    crate::laws::law_candidates(s);
    crate::laws::law_candidates_until_full(s);
    rules::lemma_filter_members(candidates, rules::winning(s, color));
    rules::lemma_filter_members(candidates, rules::winning(s, opponent));
    lemma_block_is_free(s, color);
    ranking::lemma_ranked(candidates, key);
    let ranked = ranking::ranked(candidates, key);
    if ranked.len() > 0 {
        assert(ranked.contains(ranked[0]));
        assert(candidates.contains(ranked[0]));
        rules::law_million_means_five(s, ranked[0], color);
        rules::law_million_means_five(s, ranked[0], opponent);
    }
}

/// The tactical strategy takes a win that is there, and else stops a win of the opponent's.
pub proof fn law_tactical_sees_wins(s: rules::Cells, color: Piece)
    requires
        rules::is_cells(s),
    ensures
        rules::has_winning_move(s, color) ==> (tactical_choice(s, color) matches Some(c) && rules::would_win(
            s,
            c.0,
            color,
        )),
        !rules::has_winning_move(s, color) && rules::has_winning_move(s, rules::other(color)) ==> (tactical_choice(
            s,
            color,
        ) matches Some(c) && rules::would_win(s, c.0, rules::other(color))),
{
    reveal(tactical_choice);
    crate::laws::law_winning_moves_are_all(s, color);
    crate::laws::law_winning_moves_are_all(s, rules::other(color));
}

} // verus!
