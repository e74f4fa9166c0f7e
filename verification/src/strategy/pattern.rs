//! The cell worth most, by its patterns alone.
use vstd::prelude::*;

use crate::board::{Position, SCORE_OPEN_THREE};
use crate::engine::DecisionPlan;
use crate::game::GameSnapshot;
use crate::ranking;
use crate::rules;

use super::{build_plan, position_score, ranked_candidates, Strategy, StrategyKind};

verus! {

/// Chooses the candidate worth most.
#[derive(Copy, Clone, Debug, Default)]
pub struct PatternStrategy;

pub open spec fn pattern_reason(score: int) -> Seq<char> {
    if score >= 8_000 {
        "strong pattern"@
    } else if score >= 2_000 {
        "solid extension"@
    } else {
        "positional improvement"@
    }
}

/// The candidate worth most, the first of several.
pub open spec fn pattern_choice(s: rules::Cells, color: crate::board::Piece) -> Option<super::Choice> {
    let ranked = ranking::ranked(rules::candidates(s), super::by_worth(s, color));
    if ranked.len() == 0 {
        None
    } else {
        let score = super::value(s, color, ranked[0]);
        Some((ranked[0], score, pattern_reason(score)))
    }
}

impl PatternStrategy {
    /// The candidate worth most, what it is worth, and how it is rated.
    pub fn pick(snapshot: &GameSnapshot) -> (r: Option<(Position, i32, String)>)
        ensures
            super::is_choice(r, pattern_choice(snapshot.board@, snapshot.my_color)),
    {
        let ranked = ranked_candidates(&snapshot.board, snapshot.my_color);
        if ranked.len() == 0 {
            return None;
        }
        let position = ranked[0];
        let score = position_score(snapshot, position);
        let reason = if score >= SCORE_OPEN_THREE {
            "strong pattern"
        } else if score >= 2_000 {
            "solid extension"
        } else {
            "positional improvement"
        };
        Some((position, score, reason.to_owned()))
    }
}

impl Strategy for PatternStrategy {
    fn name(&self) -> (r: &'static str)
        ensures
            r@ == "pattern"@,
    {
        "pattern"
    }

    fn select_move(&self, snapshot: &GameSnapshot) -> (r: Option<Position>)
        ensures
            r == super::cell_of(pattern_choice(snapshot.board@, snapshot.my_color)),
    {
        match Self::pick(snapshot) {
            Some((position, _, _)) => Some(position),
            None => None,
        }
    }
}

/// The plan of the pattern strategy.
pub fn plan(snapshot: &GameSnapshot) -> (r: Option<DecisionPlan>)
    ensures
        super::is_plan(r, StrategyKind::Pattern, pattern_choice(snapshot.board@, snapshot.my_color)),
{
    build_plan(StrategyKind::Pattern, PatternStrategy::pick(snapshot))
}

} // verus!
