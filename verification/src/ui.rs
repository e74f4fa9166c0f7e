//! What a spectator is shown.
use vstd::prelude::*;

use crate::board::{Board, Piece, Position, BOARD_SIZE};
use crate::config::StrategyChoice;
use crate::engine::DecisionPlan;
use crate::history;
use crate::rules;
use crate::text;

verus! {

broadcast use crate::board::board_has_every_cell;

/// How far a game is.
#[derive(Copy, Clone, Debug, PartialEq, Eq, Structural)]
pub enum GamePhase {
    Lobby,
    Playing,
    GameOver,
}

/// The last decision of a bot.
#[derive(Debug, PartialEq, Eq)]
pub struct LastDecision {
    pub strategy: String,
    pub row: usize,
    pub column: usize,
    pub score: i32,
    pub reason: String,
}

/// The last decision of a bot, as plain text and values.
pub struct DecisionModel {
    pub strategy: Seq<char>,
    pub row: usize,
    pub column: usize,
    pub score: i32,
    pub reason: Seq<char>,
}

impl View for LastDecision {
    type V = DecisionModel;

    open spec fn view(&self) -> DecisionModel {
        DecisionModel {
            strategy: self.strategy@,
            row: self.row,
            column: self.column,
            score: self.score,
            reason: self.reason@,
        }
    }
}

impl LastDecision {
    /// The decision for a plan.
    pub fn of_plan(plan: &DecisionPlan) -> (r: Self)
        ensures
            r@ == decided(*plan),
    {
        LastDecision {
            strategy: plan.strategy.label().to_owned(),
            row: plan.position.row,
            column: plan.position.column,
            score: plan.score,
            reason: plan.reason.clone(),
        }
    }

    /// What the search has come to at `depth`.
    pub fn at_depth(position: Position, score: i32, reason: String, depth: usize) -> (r: Self)
        ensures
            r@ == searched(position, score, reason@, depth),
    {
        let mut strategy = "search d=".to_owned();
        text::push_decimal(&mut strategy, depth as u64);
        LastDecision { strategy, row: position.row, column: position.column, score, reason }
    }
}

/// The decision for a plan.
pub open spec fn decided(plan: DecisionPlan) -> DecisionModel {
    DecisionModel {
        strategy: plan.strategy.label_spec(),
        row: plan.position.row,
        column: plan.position.column,
        score: plan.score,
        reason: plan.reason@,
    }
}

/// What the search has come to at `depth`.
pub open spec fn searched(position: Position, score: i32, reason: Seq<char>, depth: usize) -> DecisionModel {
    DecisionModel {
        strategy: "search d="@ + text::decimal(depth as nat),
        row: position.row,
        column: position.column,
        score,
        reason,
    }
}

/// A cell that is worth a move, and how it scores.
#[derive(Copy, Clone, Debug, PartialEq, Eq, Structural)]
pub struct CandidateMove {
    pub row: usize,
    pub column: usize,
    pub score_self: i32,
    pub score_opponent: i32,
    pub search_score: Option<i32>,
}

/// The candidate `p` as it scores for `color`.
pub open spec fn candidate_at(s: rules::Cells, color: Piece, p: Position) -> CandidateMove {
    CandidateMove {
        row: p.row,
        column: p.column,
        score_self: rules::score(s, p, color) as i32,
        score_opponent: rules::score(s, p, rules::other(color)) as i32,
        search_score: None,
    }
}

/// The candidates as they score for `color`.
pub open spec fn scored_candidates(s: rules::Cells, color: Piece) -> Seq<CandidateMove> {
    Seq::new(rules::candidates(s).len(), |i: int| candidate_at(s, color, rules::candidates(s)[i]))
}

/// The candidates as they score for `my_color`.
pub fn compute_candidates(board: &Board, my_color: Piece) -> (r: Vec<CandidateMove>)
    ensures
        r@ == scored_candidates(board@, my_color),
{
    let positions = board.candidate_positions();
    let opponent = my_color.opponent();
    let mut r: Vec<CandidateMove> = Vec::new();
    let mut i: usize = 0;
    while i < positions.len()
        invariant
            i <= positions@.len(),
            positions@ == rules::candidates(board@),
            opponent == rules::other(my_color),
            r@ == scored_candidates(board@, my_color).take(i as int),
        decreases positions@.len() - i,
    {
        let p = positions[i];
        r.push(
            CandidateMove {
                row: p.row,
                column: p.column,
                score_self: board.score_move(p, my_color),
                score_opponent: board.score_move(p, opponent),
                search_score: None,
            },
        );
        assert(r@ =~= scored_candidates(board@, my_color).take(i + 1));
        i = i + 1;
    }
    assert(r@ =~= scored_candidates(board@, my_color));
    r
}

/// The greatest of the scores for us and 1.
pub open spec fn scale_self(cs: Seq<CandidateMove>) -> i32
    decreases cs.len(),
{
    if cs.len() == 0 {
        1
    } else if cs.last().score_self > scale_self(cs.drop_last()) {
        cs.last().score_self
    } else {
        scale_self(cs.drop_last())
    }
}

/// The greatest of the scores for the opponent and 1.
pub open spec fn scale_opponent(cs: Seq<CandidateMove>) -> i32
    decreases cs.len(),
{
    if cs.len() == 0 {
        1
    } else if cs.last().score_opponent > scale_opponent(cs.drop_last()) {
        cs.last().score_opponent
    } else {
        scale_opponent(cs.drop_last())
    }
}

/// By what the scores of the candidates are divided to be shown: the greatest score for us, and
/// the greatest for the opponent, but 1 at least.
pub fn score_scales(candidates: &Vec<CandidateMove>) -> (r: (i32, i32))
    ensures
        r.0 == scale_self(candidates@),
        r.1 == scale_opponent(candidates@),
{
    let mut mine: i32 = 1;
    let mut theirs: i32 = 1;
    let mut i: usize = 0;
    assert(candidates@.take(0) =~= Seq::<CandidateMove>::empty());
    while i < candidates.len()
        invariant
            i <= candidates@.len(),
            mine == scale_self(candidates@.take(i as int)),
            theirs == scale_opponent(candidates@.take(i as int)),
        decreases candidates@.len() - i,
    {
        let c = candidates[i];
        proof {
            let next = candidates@.take(i + 1);
            assert(next.drop_last() =~= candidates@.take(i as int));
            assert(next.last() == c);
        }
        if c.score_self > mine {
            mine = c.score_self;
        }
        if c.score_opponent > theirs {
            theirs = c.score_opponent;
        }
        i = i + 1;
    }
    assert(candidates@.take(i as int) =~= candidates@);
    (mine, theirs)
}

/// The score of every candidate fits under the scale: a share of it is at most one, and the scale
/// is never zero.
pub proof fn law_scales_cover_the_scores(cs: Seq<CandidateMove>, i: int)
    requires
        0 <= i < cs.len(),
    ensures
        scale_self(cs) >= 1,
        scale_opponent(cs) >= 1,
        cs[i].score_self <= scale_self(cs),
        cs[i].score_opponent <= scale_opponent(cs),
    decreases cs.len(),
{
    if i < cs.len() - 1 {
        law_scales_cover_the_scores(cs.drop_last(), i);
    } else if cs.len() > 1 {
        law_scales_cover_the_scores(cs.drop_last(), 0);
    } else {
        reveal_with_fuel(scale_self, 2);
        reveal_with_fuel(scale_opponent, 2);
    }
}

/// The nearest number of the type `i32`.
pub open spec fn bounded(x: int) -> int {
    if x > 2_147_483_647 {
        2_147_483_647
    } else if x < -2_147_483_648 {
        -2_147_483_648
    } else {
        x
    }
}

fn bound(x: i64) -> (r: i32)
    ensures
        r == bounded(x as int),
{
    if x > 2_147_483_647 {
        2_147_483_647
    } else if x < -2_147_483_648 {
        -2_147_483_648
    } else {
        x as i32
    }
}

/// The score that the search gave to a cell: the first in the list.
pub open spec fn found_score(scores: Seq<(Position, i32)>, row: usize, column: usize) -> Option<i32>
    decreases scores.len(),
{
    if scores.len() == 0 {
        None
    } else if found_score(scores.drop_last(), row, column) is Some {
        found_score(scores.drop_last(), row, column)
    } else if scores.last().0 == (Position { row, column }) {
        Some(scores.last().1)
    } else {
        None
    }
}

proof fn lemma_found_early(scores: Seq<(Position, i32)>, row: usize, column: usize, n: int)
    requires
        0 <= n <= scores.len(),
        found_score(scores.take(n), row, column) is Some,
    ensures
        found_score(scores, row, column) == found_score(scores.take(n), row, column),
    decreases scores.len() - n,
{
    if n < scores.len() {
        assert(scores.take(n + 1).drop_last() =~= scores.take(n));
        lemma_found_early(scores, row, column, n + 1);
    } else {
        assert(scores.take(n) =~= scores);
    }
}

fn find_score(scores: &[(Position, i32)], row: usize, column: usize) -> (r: Option<i32>)
    ensures
        r == found_score(scores@, row, column),
{
    let mut i: usize = 0;
    assert(scores@.take(0) =~= Seq::<(Position, i32)>::empty());
    while i < scores.len()
        invariant
            i <= scores@.len(),
            found_score(scores@.take(i as int), row, column) is None,
        decreases scores@.len() - i,
    {
        proof {
            let next = scores@.take(i + 1);
            assert(next.drop_last() =~= scores@.take(i as int));
            assert(next.last() == scores@[i as int]);
        }
        let (p, score) = scores[i];
        if p.row == row && p.column == column {
            proof {
                lemma_found_early(scores@, row, column, i + 1);
            }
            return Some(score);
        }
        i = i + 1;
    }
    assert(scores@.take(i as int) =~= scores@);
    None
}

/// What a candidate scores without the search: three times its score for us, less its score for the
/// opponent.
pub open spec fn base_score(c: CandidateMove) -> int {
    bounded(bounded(3 * c.score_self) - c.score_opponent)
}

/// A candidate after the search gave `scores`: what it scores in all, or, where the search alone
/// counts, what the search gave it last.
pub open spec fn with_search(c: CandidateMove, scores: Seq<(Position, i32)>, merge_base_scores: bool) -> CandidateMove {
    let found = found_score(scores, c.row, c.column);
    CandidateMove {
        search_score: if merge_base_scores {
            Some(
                bounded(
                    base_score(c) + (match found {
                        Some(v) => v as int,
                        None => 0,
                    }),
                ) as i32,
            )
        } else if found is Some {
            found
        } else {
            c.search_score
        },
        ..c
    }
}

/// Candidates after the search gave `scores`.
pub open spec fn all_with_search(
    cs: Seq<CandidateMove>,
    scores: Seq<(Position, i32)>,
    merge_base_scores: bool,
) -> Seq<CandidateMove> {
    Seq::new(cs.len(), |i: int| with_search(cs[i], scores, merge_base_scores))
}

/// Puts the scores of the search into the candidates.
pub fn update_candidates_with_search_scores(
    candidates: &mut Vec<CandidateMove>,
    scores: &[(Position, i32)],
    merge_base_scores: bool,
)
    ensures
        final(candidates)@ == all_with_search(old(candidates)@, scores@, merge_base_scores),
{
    let ghost cs = candidates@;
    let mut i: usize = 0;
    while i < candidates.len()
        invariant
            i <= candidates@.len(),
            candidates@.len() == cs.len(),
            forall|k: int| 0 <= k < i ==> #[trigger] candidates@[k] == with_search(cs[k], scores@, merge_base_scores),
            forall|k: int| i <= k < cs.len() ==> #[trigger] candidates@[k] == cs[k],
        decreases cs.len() - i,
    {
        let mut c = candidates[i];
        assert(c == cs[i as int]);
        let found = find_score(scores, c.row, c.column);
        if merge_base_scores {
            let tripled = bound(3 * (c.score_self as i64));
            let base = bound(tripled as i64 - c.score_opponent as i64);
            let searched: i32 = match found {
                Some(v) => v,
                None => 0,
            };
            c.search_score = Some(bound(base as i64 + searched as i64));
        } else if found.is_some() {
            c.search_score = found;
        }
        candidates.set(i, c);
        i = i + 1;
    }
    assert(candidates@ =~= all_with_search(cs, scores@, merge_base_scores));
}

/// The least and the greatest score of the search.
pub open spec fn range_of(cs: Seq<CandidateMove>) -> Option<(i32, i32)>
    decreases cs.len(),
{
    if cs.len() == 0 {
        None
    } else {
        match (range_of(cs.drop_last()), cs.last().search_score) {
            (before, None) => before,
            (None, Some(v)) => Some((v, v)),
            (Some(r), Some(v)) => Some(
                (
                    if v < r.0 {
                        v
                    } else {
                        r.0
                    },
                    if v > r.1 {
                        v
                    } else {
                        r.1
                    },
                ),
            ),
        }
    }
}

/// The least and the greatest score that the search gave to the candidates; none where it gave
/// none.
pub fn search_range(candidates: &Vec<CandidateMove>) -> (r: Option<(i32, i32)>)
    ensures
        r == range_of(candidates@),
{
    let mut r: Option<(i32, i32)> = None;
    let mut i: usize = 0;
    assert(candidates@.take(0) =~= Seq::<CandidateMove>::empty());
    while i < candidates.len()
        invariant
            i <= candidates@.len(),
            r == range_of(candidates@.take(i as int)),
        decreases candidates@.len() - i,
    {
        proof {
            let next = candidates@.take(i + 1);
            assert(next.drop_last() =~= candidates@.take(i as int));
            assert(next.last() == candidates@[i as int]);
        }
        if let Some(v) = candidates[i].search_score {
            r = match r {
                None => Some((v, v)),
                Some((low, high)) => Some(
                    (
                        if v < low {
                            v
                        } else {
                            low
                        },
                        if v > high {
                            v
                        } else {
                            high
                        },
                    ),
                ),
            };
        }
        i = i + 1;
    }
    assert(candidates@.take(i as int) =~= candidates@);
    r
}

/// Every score of the search lies in the range of them.
pub proof fn law_range_covers_the_scores(cs: Seq<CandidateMove>, i: int)
    requires
        0 <= i < cs.len(),
        cs[i].search_score is Some,
    ensures
        range_of(cs) matches Some(r) && r.0 <= cs[i].search_score->0 <= r.1,
    decreases cs.len(),
{
    if i < cs.len() - 1 {
        law_range_covers_the_scores(cs.drop_last(), i);
    }
}

/// The name of a stone.
pub open spec fn stone_name(stone: Option<Piece>) -> Option<Seq<char>> {
    match stone {
        Some(piece) => Some(history::color_text(piece)),
        None => None,
    }
}

/// The rows of a board, by the names of the stones.
pub open spec fn named_grid(s: rules::Cells) -> Seq<Seq<Option<Seq<char>>>> {
    Seq::new(18, |r: int| Seq::new(18, |c: int| stone_name(rules::at(s, r, c))))
}

/// The texts of a row.
pub open spec fn row_texts(row: Seq<Option<String>>) -> Seq<Option<Seq<char>>> {
    Seq::new(row.len(), |i: int| crate::protocol::text_of(row[i]))
}

/// The texts of a grid.
pub open spec fn grid_texts(grid: Seq<Vec<Option<String>>>) -> Seq<Seq<Option<Seq<char>>>> {
    Seq::new(grid.len(), |i: int| row_texts(grid[i]@))
}

/// The rows of a board, by the names of the stones.
pub fn board_to_grid(board: &Board) -> (grid: Vec<Vec<Option<String>>>)
    ensures
        grid_texts(grid@) == named_grid(board@),
{
    let mut grid: Vec<Vec<Option<String>>> = Vec::new();
    let mut row: usize = 0;
    assert(grid_texts(grid@) =~= named_grid(board@).take(0));
    while row < BOARD_SIZE
        invariant
            row <= 18,
            grid_texts(grid@) == named_grid(board@).take(row as int),
        decreases 18 - row,
    {
        let mut cells: Vec<Option<String>> = Vec::new();
        let mut column: usize = 0;
        assert(row_texts(cells@) =~= named_grid(board@)[row as int].take(0));
        while column < BOARD_SIZE
            invariant
                row < 18,
                column <= 18,
                row_texts(cells@) == named_grid(board@)[row as int].take(column as int),
            decreases 18 - column,
        {
            let ghost before = cells@;
            let name = match board.get(Position::new(row, column)) {
                Some(piece) => Some(history::piece_name(piece)),
                None => None,
            };
            cells.push(name);
            proof {
                let all = named_grid(board@)[row as int];
                assert(row_texts(cells@) =~= row_texts(before).push(all[column as int]));
                assert(row_texts(cells@) =~= all.take(column + 1));
            }
            column = column + 1;
        }
        let ghost before = grid@;
        proof {
            assert(row_texts(cells@) =~= named_grid(board@)[row as int]);
        }
        grid.push(cells);
        proof {
            assert(grid_texts(grid@) =~= grid_texts(before).push(named_grid(board@)[row as int]));
            assert(grid_texts(grid@) =~= named_grid(board@).take(row + 1));
        }
        row = row + 1;
    }
    assert(named_grid(board@).take(18) =~= named_grid(board@));
    grid
}

/// The colour that a result names as the winner: Black where it is named at all.
pub open spec fn named_winner(result: Seq<char>) -> Option<Piece> {
    if text::has_part(result, "Black"@) {
        Some(Piece::Black)
    } else if text::has_part(result, "White"@) {
        Some(Piece::White)
    } else {
        None
    }
}

/// The colour that a result names as the winner.
pub fn winner_of(result: &str) -> (r: Option<Piece>)
    ensures
        r == named_winner(result@),
{
    if text::contains_text(result, "Black") {
        Some(Piece::Black)
    } else if text::contains_text(result, "White") {
        Some(Piece::White)
    } else {
        None
    }
}

/// The colour whose win is to be counted: when the phase changes and there is a result, the winner
/// that it names.
pub fn win_to_count(last_phase: Option<GamePhase>, phase: GamePhase, result: &Option<String>) -> (r: Option<Piece>)
    ensures
        r == (if last_phase == Some(phase) {
            None
        } else {
            match *result {
                Some(text) => named_winner(text@),
                None => None,
            }
        }),
{
    let changed = match last_phase {
        Some(last) => last != phase,
        None => true,
    };
    if !changed {
        return None;
    }
    match result {
        Some(text) => winner_of(text.as_str()),
        None => None,
    }
}

/// How many games each strategy has won.
#[derive(Copy, Clone, Debug, PartialEq, Eq, Structural)]
pub struct WinCounts {
    pub tactical: u32,
    pub pattern: u32,
    pub adaptive: u32,
    pub vcf: u32,
    pub vct: u32,
    pub search: u32,
}

impl WinCounts {
    pub open spec fn count_spec(self, strategy: StrategyChoice) -> u32 {
        match strategy {
            StrategyChoice::Tactical => self.tactical,
            StrategyChoice::Pattern => self.pattern,
            StrategyChoice::Adaptive => self.adaptive,
            StrategyChoice::Vcf => self.vcf,
            StrategyChoice::Vct => self.vct,
            StrategyChoice::Search => self.search,
        }
    }

    /// No game has been won.
    pub fn new() -> (r: Self)
        ensures
            forall|strategy: StrategyChoice| r.count_spec(strategy) == 0,
    {
        WinCounts { tactical: 0, pattern: 0, adaptive: 0, vcf: 0, vct: 0, search: 0 }
    }

    /// How many games `strategy` has won.
    pub fn count(&self, strategy: StrategyChoice) -> (r: u32)
        ensures
            r == self.count_spec(strategy),
    {
        match strategy {
            StrategyChoice::Tactical => self.tactical,
            StrategyChoice::Pattern => self.pattern,
            StrategyChoice::Adaptive => self.adaptive,
            StrategyChoice::Vcf => self.vcf,
            StrategyChoice::Vct => self.vct,
            StrategyChoice::Search => self.search,
        }
    }

    /// Counts a win of `strategy`.
    pub fn record(&mut self, strategy: StrategyChoice)
        requires
            old(self).count_spec(strategy) < u32::MAX,
        ensures
            final(self).count_spec(strategy) == old(self).count_spec(strategy) + 1,
            forall|other: StrategyChoice|
                other != strategy ==> #[trigger] final(self).count_spec(other) == old(self).count_spec(other),
    {
        match strategy {
            StrategyChoice::Tactical => {
                self.tactical = self.tactical + 1;
            },
            StrategyChoice::Pattern => {
                self.pattern = self.pattern + 1;
            },
            StrategyChoice::Adaptive => {
                self.adaptive = self.adaptive + 1;
            },
            StrategyChoice::Vcf => {
                self.vcf = self.vcf + 1;
            },
            StrategyChoice::Vct => {
                self.vct = self.vct + 1;
            },
            StrategyChoice::Search => {
                self.search = self.search + 1;
            },
        }
    }
}

} // verus!
