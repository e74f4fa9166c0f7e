//! Ways to choose a move.
use vstd::prelude::*;

use crate::board::{Board, Piece, Position};
use crate::engine::DecisionPlan;
use crate::game::GameSnapshot;
use crate::ranking;
use crate::rules;

pub mod choice_laws;
pub mod forced;
pub mod fours;
pub mod frontier;
pub mod pattern;
pub mod router;
pub mod search;
pub mod search_laws;
pub mod search_model;
pub mod tactical;
pub mod value_laws;
pub mod vcf;
pub mod vct;

pub use frontier::FrontierStrategy;
pub use pattern::PatternStrategy;
pub use router::StrategyRouter;
pub use search::SearchStrategy;
pub use tactical::TacticalStrategy;
pub use vcf::VcfStrategy;
pub use vct::VctStrategy;

verus! {

/// The strategy that a plan comes from.
#[derive(Copy, Clone, Debug, PartialEq, Eq, Structural)]
pub enum StrategyKind {
    Tactical,
    Pattern,
    Vcf,
    Vct,
    Search,
}

/// A way to choose a move.
pub trait Strategy {
    fn name(&self) -> &'static str;

    fn select_move(&self, snapshot: &GameSnapshot) -> Option<Position>;
}

impl StrategyKind {
    pub open spec fn label_spec(self) -> Seq<char> {
        match self {
            StrategyKind::Tactical => "tactical"@,
            StrategyKind::Pattern => "pattern"@,
            StrategyKind::Vcf => "vcf"@,
            StrategyKind::Vct => "vct"@,
            StrategyKind::Search => "search"@,
        }
    }

    /// The strategy's name.
    pub fn label(self) -> (r: &'static str)
        ensures
            r@ == self.label_spec(),
    {
        match self {
            StrategyKind::Tactical => "tactical",
            StrategyKind::Pattern => "pattern",
            StrategyKind::Vcf => "vcf",
            StrategyKind::Vct => "vct",
            StrategyKind::Search => "search",
        }
    }
}

/// A cell, what it is worth, and why it was chosen.
pub type Choice = (Position, int, Seq<char>);

/// `r` is the choice `c`.
pub open spec fn is_choice(r: Option<(Position, i32, String)>, c: Option<Choice>) -> bool {
    match (r, c) {
        (Some(x), Some(y)) => x.0 == y.0 && x.1 == y.1 && x.2@ == y.2,
        (None, None) => true,
        _ => false,
    }
}

/// The cell of a choice.
pub open spec fn cell_of(c: Option<Choice>) -> Option<Position> {
    match c {
        Some(x) => Some(x.0),
        None => None,
    }
}

/// `r` is the plan that strategy `kind` makes of the choice `c`.
pub open spec fn is_plan(r: Option<DecisionPlan>, kind: StrategyKind, c: Option<Choice>) -> bool {
    match (r, c) {
        (Some(x), Some(y)) => x.strategy == kind && x.position == y.0 && x.score == y.1 && x.reason@ == y.2,
        (None, None) => true,
        _ => false,
    }
}

/// How many moves the search looks at below the root: 15 where the best one scores 50000 or more
/// and few replies are good, else 7.
pub fn adaptive_inner_limit(best_score: i32) -> (r: usize)
    ensures
        r == if best_score >= 50_000 {
            15int
        } else {
            7
        },
{
    if best_score >= 50_000 {
        15
    } else {
        7
    }
}

/// What a cell is worth to the player of colour `color`: what it gives to whom it gives more
/// counts twice.
pub open spec fn value(s: rules::Cells, color: Piece, p: Position) -> int {
    let mine = rules::score(s, p, color);
    let theirs = rules::score(s, p, rules::other(color));
    if mine >= theirs {
        2 * mine + theirs
    } else {
        2 * theirs + mine
    }
}

/// The key by which cells are ranked for the player of colour `color`.
pub open spec fn by_worth(s: rules::Cells, color: Piece) -> spec_fn(Position) -> int {
    |p: Position| value(s, color, p)
}

/// The key by which cells are ranked by their score for `color`.
pub open spec fn by_attack(s: rules::Cells, color: Piece) -> spec_fn(Position) -> int {
    |p: Position| rules::score(s, p, color)
}

/// The cells that score at least `threshold` for `color`.
pub open spec fn reaches(s: rules::Cells, color: Piece, threshold: int) -> spec_fn(Position) -> bool {
    |p: Position| rules::score(s, p, color) >= threshold
}

/// The candidates that score at least `threshold` for `attacker`, the best first.
pub open spec fn threats(s: rules::Cells, attacker: Piece, threshold: int) -> Seq<Position> {
    ranking::ranked(rules::candidates(s).filter(reaches(s, attacker, threshold)), by_attack(s, attacker))
}

/// Every threat is a free cell.
pub proof fn lemma_threat_is_free(s: rules::Cells, attacker: Piece, threshold: int, i: int)
    requires
        rules::is_cells(s),
        0 <= i < threats(s, attacker, threshold).len(),
    ensures
        rules::is_free(s, threats(s, attacker, threshold)[i]),
{
    let kept = rules::candidates(s).filter(reaches(s, attacker, threshold));
    crate::laws::law_candidates(s);
    rules::lemma_filter_members(rules::candidates(s), reaches(s, attacker, threshold));
    ranking::lemma_ranked(kept, by_attack(s, attacker));
    assert(threats(s, attacker, threshold).contains(threats(s, attacker, threshold)[i]));
    assert(kept.contains(threats(s, attacker, threshold)[i]));
}

/// What `position` is worth on `board` to the player of colour `color`.
pub fn cell_value(board: &Board, color: Piece, position: Position) -> (r: i32)
    ensures
        r == value(board@, color, position),
        -1_610_612_736 <= r <= 12_000_180,
{
    proof {
        rules::law_million_means_five(board@, position, color);
        rules::law_million_means_five(board@, position, rules::other(color));
    }
    let mine = board.score_move(position, color);
    let theirs = board.score_move(position, color.opponent());
    if mine >= theirs {
        mine * 2 + theirs
    } else {
        theirs * 2 + mine
    }
}

/// What `position` is worth to us.
pub fn position_score(snapshot: &GameSnapshot, position: Position) -> (r: i32)
    ensures
        r == value(snapshot.board@, snapshot.my_color, position),
        -1_610_612_736 <= r <= 12_000_180,
{
    cell_value(&snapshot.board, snapshot.my_color, position)
}

/// The candidates, the one worth most to `color` first.
pub fn ranked_candidates(board: &Board, color: Piece) -> (r: Vec<Position>)
    ensures
        r@ == ranking::ranked(rules::candidates(board@), by_worth(board@, color)),
{
    let candidates = board.candidate_positions();
    let mut items: Vec<(Position, i128)> = Vec::new();
    let mut i: usize = 0;
    while i < candidates.len()
        invariant
            i <= candidates@.len(),
            items@.len() == i,
            forall|k: int|
                0 <= k < i ==> (#[trigger] items@[k]).0 == candidates@[k] && items@[k].1 == value(
                    board@,
                    color,
                    candidates@[k],
                ),
        decreases candidates@.len() - i,
    {
        items.push((candidates[i], cell_value(board, color, candidates[i]) as i128));
        i = i + 1;
    }
    assert(ranking::firsts(items@) =~= candidates@);
    ranking::rank_by(items, Ghost(by_worth(board@, color)))
}

/// The candidates that score at least `threshold` for `attacker`, with their scores, the best
/// first.
pub fn threat_candidates(board: &Board, attacker: Piece, threshold: i32) -> (r: Vec<(Position, i32)>)
    ensures
        r@.len() == threats(board@, attacker, threshold as int).len(),
        forall|k: int|
            0 <= k < r@.len() ==> (#[trigger] r@[k]).0 == threats(board@, attacker, threshold as int)[k] && r@[k].1
                == rules::score(board@, r@[k].0, attacker),
{
    let candidates = board.candidate_positions();
    let ghost pred = reaches(board@, attacker, threshold as int);
    let ghost key = by_attack(board@, attacker);
    let mut items: Vec<(Position, i128)> = Vec::new();
    let mut i: usize = 0;
    proof {
        reveal(Seq::filter);
        assert(candidates@.take(0).filter(pred) =~= Seq::<Position>::empty());
    }
    while i < candidates.len()
        invariant
            i <= candidates@.len(),
            pred == reaches(board@, attacker, threshold as int),
            ranking::firsts(items@) == candidates@.take(i as int).filter(pred),
            forall|k: int|
                0 <= k < items@.len() ==> (#[trigger] items@[k]).1 == rules::score(board@, items@[k].0, attacker),
        decreases candidates@.len() - i,
    {
        let position = candidates[i];
        let score = board.score_move(position, attacker);
        proof {
            rules::lemma_filter_step(candidates@, pred, i as int);
        }
        let ghost before = items@;
        if score >= threshold {
            items.push((position, score as i128));
            assert(ranking::firsts(items@) =~= ranking::firsts(before).push(position));
        }
        i = i + 1;
    }
    assert(candidates@.take(i as int) =~= candidates@);
    proof {
        ranking::lemma_ranked_firsts(items@, key);
    }
    let sorted = ranking::rank(items);
    let mut r: Vec<(Position, i32)> = Vec::new();
    let mut j: usize = 0;
    while j < sorted.len()
        invariant
            j <= sorted@.len(),
            r@.len() == j,
            key == by_attack(board@, attacker),
            forall|k: int| 0 <= k < sorted@.len() ==> (#[trigger] sorted@[k]).1 == key(sorted@[k].0),
            forall|k: int|
                0 <= k < j ==> (#[trigger] r@[k]).0 == sorted@[k].0 && r@[k].1 == rules::score(
                    board@,
                    r@[k].0,
                    attacker,
                ),
        decreases sorted@.len() - j,
    {
        let (position, score) = sorted[j];
        proof {
            rules::law_million_means_five(board@, position, attacker);
            assert(sorted@[j as int].1 == key(position));
        }
        r.push((position, score as i32));
        j = j + 1;
    }
    r
}

/// The plan that `strategy` makes of a choice.
pub fn build_plan(strategy: StrategyKind, choice: Option<(Position, i32, String)>) -> (r: Option<DecisionPlan>)
    ensures
        match choice {
            Some(c) => r == Some(
                (DecisionPlan { strategy, position: c.0, score: c.1, reason: c.2 }),
            ),
            None => r is None,
        },
{
    match choice {
        Some((position, score, reason)) => Some(DecisionPlan { strategy, position, score, reason }),
        None => None,
    }
}

} // verus!
