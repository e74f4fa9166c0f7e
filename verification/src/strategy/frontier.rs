//! The cell worth most, as a first look of the search.
use vstd::prelude::*;

use crate::board::Position;
use crate::engine::DecisionPlan;
use crate::game::GameSnapshot;
use crate::ranking;
use crate::rules;

use super::{build_plan, position_score, ranked_candidates, Strategy, StrategyKind};

verus! {

/// Chooses the candidate worth most.
#[derive(Copy, Clone, Debug, Default)]
pub struct FrontierStrategy;

/// The candidate worth most, the first of several.
pub open spec fn frontier_choice(s: rules::Cells, color: crate::board::Piece) -> Option<super::Choice> {
    let ranked = ranking::ranked(rules::candidates(s), super::by_worth(s, color));
    if ranked.len() == 0 {
        None
    } else {
        let score = super::value(s, color, ranked[0]);
        Some(
            (
                ranked[0],
                score,
                if score >= 15_000 {
                    "frontier hot spot"@
                } else {
                    "frontier candidate"@
                },
            ),
        )
    }
}

impl FrontierStrategy {
    /// The candidate worth most, what it is worth, and how it is rated.
    pub fn pick(snapshot: &GameSnapshot) -> (r: Option<(Position, i32, String)>)
        ensures
            super::is_choice(r, frontier_choice(snapshot.board@, snapshot.my_color)),
    {
        let ranked = ranked_candidates(&snapshot.board, snapshot.my_color);
        if ranked.len() == 0 {
            return None;
        }
        let position = ranked[0];
        let score = position_score(snapshot, position);
        let reason = if score >= 15_000 {
            "frontier hot spot"
        } else {
            "frontier candidate"
        };
        Some((position, score, reason.to_owned()))
    }
}

impl Strategy for FrontierStrategy {
    fn name(&self) -> (r: &'static str)
        ensures
            r@ == "frontier"@,
    {
        "frontier"
    }

    fn select_move(&self, snapshot: &GameSnapshot) -> (r: Option<Position>)
        ensures
            r == super::cell_of(frontier_choice(snapshot.board@, snapshot.my_color)),
    {
        match Self::pick(snapshot) {
            Some((position, _, _)) => Some(position),
            None => None,
        }
    }
}

/// The plan of the frontier strategy, which counts as a light search: pattern plans are kept for
/// positional and opening moves.
pub fn plan(snapshot: &GameSnapshot) -> (r: Option<DecisionPlan>)
    ensures
        super::is_plan(r, StrategyKind::Search, frontier_choice(snapshot.board@, snapshot.my_color)),
{
    build_plan(StrategyKind::Search, FrontierStrategy::pick(snapshot))
}

} // verus!
