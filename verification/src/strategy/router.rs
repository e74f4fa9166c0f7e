//! The choice of the strategy.
use vstd::prelude::*;

use crate::board::Piece;
use crate::engine::DecisionPlan;
use crate::game::GameSnapshot;
use crate::rules;

use super::{frontier, pattern, search, tactical, StrategyKind};

verus! {

broadcast use crate::board::board_has_every_cell;

/// Picks the cheapest strategy that gives a good move.
#[derive(Copy, Clone, Debug, Default)]
pub struct StrategyRouter;

/// One of the players can win at once.
pub open spec fn win_at_hand(s: rules::Cells, color: Piece) -> bool {
    rules::has_winning_move(s, color) || rules::has_winning_move(s, rules::other(color))
}

/// A candidate scores 50000 or more for one of the players.
pub open spec fn hot(s: rules::Cells, color: Piece) -> bool {
    rules::best_score(rules::scores(s, rules::candidates(s), color)) >= 50_000 || rules::best_score(
        rules::scores(s, rules::candidates(s), rules::other(color)),
    ) >= 50_000
}

/// Where a plan comes from.
pub enum Route {
    Tactical,
    Pattern,
    Search,
    Frontier,
}

/// The strategy for a position: tactical where a win is at hand, pattern in the opening, tactical
/// where a candidate is hot, else by the number of candidates: search up to 8, frontier up to 20,
/// pattern above.
pub open spec fn route(s: rules::Cells, color: Piece) -> Route {
    if win_at_hand(s, color) {
        Route::Tactical
    } else if rules::stones(s) < 4 {
        Route::Pattern
    } else if hot(s, color) {
        Route::Tactical
    } else if rules::candidates(s).len() <= 8 {
        Route::Search
    } else if rules::candidates(s).len() <= 20 {
        Route::Frontier
    } else {
        Route::Pattern
    }
}

/// The router may return the plan `r`: none on the full board, else the one of the strategy for
/// the position.
pub open spec fn is_routed(s: rules::Cells, hash: u64, color: Piece, r: Option<DecisionPlan>) -> bool {
    if rules::stones(s) == 324 {
        r is None
    } else {
        match route(s, color) {
            Route::Tactical => super::is_plan(r, StrategyKind::Tactical, tactical::tactical_plan(s, color)),
            Route::Pattern => super::is_plan(r, StrategyKind::Pattern, pattern::pattern_choice(s, color)),
            Route::Frontier => super::is_plan(r, StrategyKind::Search, frontier::frontier_choice(s, color)),
            Route::Search => r matches Some(plan) && plan.strategy == StrategyKind::Search
                && search::may_pick(s, hash, color, Some((plan.position, plan.score, plan.reason))),
        }
    }
}

/// The kind of plan that the router makes.
pub open spec fn routed_kind(s: rules::Cells, color: Piece) -> StrategyKind {
    if rules::stones(s) == 324 {
        StrategyKind::Pattern
    } else {
        match route(s, color) {
            Route::Tactical => StrategyKind::Tactical,
            Route::Pattern => StrategyKind::Pattern,
            Route::Frontier => StrategyKind::Search,
            Route::Search => StrategyKind::Search,
        }
    }
}

/// The strategies that do not search choose a free cell while there is one.
proof fn lemma_someone_chooses(s: rules::Cells, color: Piece)
    requires
        rules::is_cells(s),
    ensures
        tactical::tactical_plan(s, color) is None <==> rules::stones(s) == 324,
        pattern::pattern_choice(s, color) is None <==> rules::stones(s) == 324,
        frontier::frontier_choice(s, color) is None <==> rules::stones(s) == 324,
        rules::stones(s) == 324 ==> !win_at_hand(s, color),
{
    tactical::law_tactical_plays_a_free_cell(s, color);
    crate::laws::law_candidates_until_full(s);
    crate::ranking::lemma_ranked(rules::candidates(s), super::by_worth(s, color));
    if rules::stones(s) == 324 {
        rules::lemma_filter_members(rules::candidates(s), rules::winning(s, color));
        rules::lemma_filter_members(rules::candidates(s), rules::winning(s, rules::other(color)));
        if rules::winning_moves(s, color).len() > 0 {
            assert(rules::candidates(s).contains(rules::winning_moves(s, color)[0]));
        }
        if rules::winning_moves(s, rules::other(color)).len() > 0 {
            assert(rules::candidates(s).contains(rules::winning_moves(s, rules::other(color))[0]));
        }
    }
}

impl StrategyRouter {
    /// The plan of the strategy for the position.
    pub fn pick(&self, snapshot: &GameSnapshot) -> (r: Option<DecisionPlan>)
        ensures
            is_routed(snapshot.board@, snapshot.board.hash, snapshot.my_color, r),
            r is None <==> rules::stones(snapshot.board@) == 324,
            r matches Some(plan) ==> plan.strategy == routed_kind(snapshot.board@, snapshot.my_color),
    {
        proof {
            lemma_someone_chooses(snapshot.board@, snapshot.my_color);
        }
        let insight = snapshot.board.inspect(snapshot.my_color);
        if insight.self_winning_moves > 0 || insight.opponent_winning_moves > 0 {
            return tactical::plan(snapshot);
        }
        if snapshot.board.move_count() < 4 {
            return pattern::plan(snapshot);
        }
        if insight.best_self_score >= 50_000 || insight.best_opponent_score >= 50_000 {
            return tactical::plan(snapshot);
        }
        if insight.candidate_count <= 8 {
            return search::plan(snapshot);
        }
        if insight.candidate_count <= 20 {
            return frontier::plan(snapshot);
        }
        pattern::plan(snapshot)
    }

    /// The kind of the plan; pattern where there is none.
    pub fn selected_kind(&self, snapshot: &GameSnapshot) -> (r: StrategyKind)
        ensures
            r == routed_kind(snapshot.board@, snapshot.my_color),
    {
        match self.pick(snapshot) {
            Some(plan) => plan.strategy,
            None => StrategyKind::Pattern,
        }
    }
}

/// The router takes a win that is there, and else stops a win of the opponent's.
pub proof fn law_router_sees_wins(s: rules::Cells, hash: u64, color: Piece, r: Option<DecisionPlan>)
    requires
        rules::is_cells(s),
        is_routed(s, hash, color, r),
    ensures
        rules::has_winning_move(s, color) ==> (r matches Some(plan) && rules::would_win(s, plan.position, color)),
        !rules::has_winning_move(s, color) && rules::has_winning_move(s, rules::other(color)) ==> (r matches Some(plan)
            && rules::would_win(s, plan.position, rules::other(color))),
{
    lemma_someone_chooses(s, color);
    tactical::law_tactical_sees_wins(s, color);
}

} // verus!
