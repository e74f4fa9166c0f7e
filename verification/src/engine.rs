//! The decision engine: from a game to a move.
use vstd::prelude::*;

use crate::board::{Move, Position};
use crate::game::GameSnapshot;
use crate::rules;
use crate::strategy::router;
use crate::strategy::{Strategy, StrategyKind, StrategyRouter};

verus! {

/// A move to make, which strategy it comes from, and why.
#[derive(Debug, PartialEq, Eq)]
pub struct DecisionPlan {
    pub strategy: StrategyKind,
    pub position: Position,
    pub score: i32,
    pub reason: String,
}

impl Clone for DecisionPlan {
    fn clone(&self) -> (r: Self)
        ensures
            r == *self,
    {
        DecisionPlan {
            strategy: self.strategy,
            position: self.position,
            score: self.score,
            reason: self.reason.clone(),
        }
    }
}

impl DecisionPlan {
    pub fn new<R: Into<String>>(strategy: StrategyKind, position: Position, score: i32, reason: R) -> (r: Self)
        ensures
            r.strategy == strategy,
            r.position == position,
            r.score == score,
            call_ensures(R::into, (reason,), r.reason),
    {
        Self { strategy, position, score, reason: reason.into() }
    }
}

/// Plans moves by the router.
#[derive(Copy, Clone, Debug, Default)]
pub struct DecisionEngine {
    pub router: StrategyRouter,
}

impl DecisionEngine {
    /// The plan of the router.
    pub fn choose_plan(&self, snapshot: &GameSnapshot) -> (r: Option<DecisionPlan>)
        ensures
            router::is_routed(snapshot.board@, snapshot.board.hash, snapshot.my_color, r),
            r is None <==> rules::stones(snapshot.board@) == 324,
    {
        self.router.pick(snapshot)
    }

    /// The move of the plan, in our colour.
    pub fn choose_move(&self, snapshot: &GameSnapshot) -> (r: Option<Move>)
        ensures
            exists|plan: Option<DecisionPlan>| #[trigger]
                router::is_routed(snapshot.board@, snapshot.board.hash, snapshot.my_color, plan) && r == (match plan {
                    Some(p) => Some(
                        Move { row: p.position.row, column: p.position.column, color: snapshot.my_color },
                    ),
                    None => None,
                }),
            r is None <==> rules::stones(snapshot.board@) == 324,
    {
        match self.choose_plan(snapshot) {
            Some(plan) => Some(
                Move { row: plan.position.row, column: plan.position.column, color: snapshot.my_color },
            ),
            None => None,
        }
    }
}

impl Strategy for DecisionEngine {
    fn name(&self) -> (r: &'static str)
        ensures
            r@ == "decision-engine"@,
    {
        "decision-engine"
    }

    fn select_move(&self, snapshot: &GameSnapshot) -> (r: Option<Position>)
        ensures
            exists|plan: Option<DecisionPlan>| #[trigger]
                router::is_routed(snapshot.board@, snapshot.board.hash, snapshot.my_color, plan) && r == (match plan {
                    Some(p) => Some(p.position),
                    None => None,
                }),
            r is None <==> rules::stones(snapshot.board@) == 324,
    {
        match self.choose_plan(snapshot) {
            Some(plan) => Some(plan.position),
            None => None,
        }
    }
}

} // verus!
