//! Iterative deepening: principal variation search with a table of results, killer moves, history,
//! and a look ahead for consecutive fours at the leaves.
use std::sync::atomic::AtomicBool;
use std::time::Instant;

use vstd::prelude::*;

use crate::board::{Board, Piece, Position, BOARD_SIZE, SCORE_UNPLAYABLE};
use crate::clock;
use crate::clock::Limits;
use crate::engine::DecisionPlan;
use crate::game::GameSnapshot;
use crate::ranking;
use crate::rules;
use crate::text;
use crate::transposition_table as table;
use crate::transposition_table::{
    TTEntry, TranspositionTable, TT_FLAG_EXACT, TT_FLAG_LOWER, TT_FLAG_UPPER,
};

use super::search_model as model;
use super::search_model::{Ask, Killers, Report};
use super::vcf;
use super::vcf::{VcfStrategy, VCF_MAX_DEPTH};
use super::{adaptive_inner_limit, build_plan, position_score, ranked_candidates, Strategy, StrategyKind};

verus! {

broadcast use crate::board::board_has_every_cell;

/// How many moves the root tries.
const ROOT_CANDIDATE_LIMIT: usize = 15;

/// After how many nodes the clock is looked at.
const DEADLINE_POLL_NODES: u64 = 512;

/// How many plies have killer moves of their own.
const MAX_PLY: usize = 32;

/// The number of cells.
const AREA: usize = 324;

const WIN_SCORE: i32 = 1_000_000;

/// The beta of the root: a quarter of the greatest `i32`.
const ROOT_BETA: i32 = 536_870_911;

/// For how many milliseconds a forced win is looked for before the search begins.
const VCF_PRE_BUDGET_MS: u64 = 200;

/// How many plies a leaf looks ahead for consecutive fours.
const LEAF_VCF_DEPTH: usize = 20;

/// For how many milliseconds a leaf looks ahead.
const LEAF_VCF_BUDGET_MS: u64 = 5;

/// How deep the search goes.
const MAX_DEPTH: usize = 16;

/// What a search remembers besides the table: killer moves, history, the number of nodes, until when
/// it looks ahead before it begins, how many answers it was told, what it has asked, and what the
/// clock has said.
struct Memory {
    killers: [Killers; MAX_PLY],
    history: [i32; AREA],
    nodes: u64,
    early: Instant,
    asked: usize,
    asks: Ghost<Seq<Ask>>,
    log: Ghost<Seq<bool>>,
}

/// Until `t` goes on a look ahead: an early one until `early`, one at a leaf for five milliseconds.
pub open spec fn looks_until(is_early: bool, early: Instant, t: Instant) -> bool {
    if is_early {
        t == early
    } else {
        clock::is_after(5, t)
    }
}

/// `r` is an answer to `ask` of a search that goes on until `deadline` comes or `cancel` is set. The
/// time is up just when they say so, and there is time left just when they say that. A look ahead that
/// asks for the time is cut short just when the time until which it goes on has come, and ends by
/// itself just when there is time left; one that does not ask is never cut short.
pub open spec fn answers_ask(ask: Ask, r: bool, deadline: Instant, cancel: &AtomicBool, early: Instant) -> bool {
    match ask {
        Ask::TimeUp => clock::limits_say(deadline, cancel, r),
        Ask::Look { early: is_early, timed } => if timed {
            exists|t: Instant| looks_until(is_early, early, t) && #[trigger] clock::clock_says(t, r)
        } else {
            !r
        },
    }
}

/// `oracle` answers each of `asks` as the clock and the flag do.
#[verifier::opaque]
pub open spec fn heard(
    asks: Seq<Ask>,
    oracle: Seq<bool>,
    deadline: Instant,
    cancel: &AtomicBool,
    early: Instant,
) -> bool {
    asks.len() <= oracle.len() && forall|i: int|
        0 <= i < asks.len() ==> answers_ask(#[trigger] asks[i], oracle[i], deadline, cancel, early)
}

/// One more answer has been heard.
proof fn lemma_heard(
    asks: Seq<Ask>,
    log: Seq<bool>,
    ask: Ask,
    r: bool,
    deadline: Instant,
    cancel: &AtomicBool,
    early: Instant,
)
    requires
        asks.len() == log.len(),
        heard(asks, log, deadline, cancel, early),
        answers_ask(ask, r, deadline, cancel, early),
    ensures
        heard(asks.push(ask), log.push(r), deadline, cancel, early),
{
    reveal(heard);
    let next = asks.push(ask);
    assert forall|i: int| 0 <= i < next.len() implies answers_ask(
        #[trigger] next[i],
        log.push(r)[i],
        deadline,
        cancel,
        early,
    ) by {
        if i < asks.len() {
            assert(answers_ask(asks[i], log[i], deadline, cancel, early));
        }
    }
}

/// The first `n` answers of a clock that says `answers`, and after that that the time is up.
pub open spec fn said(answers: Seq<bool>, n: nat) -> Seq<bool> {
    Seq::new(n, |i: int| i < answers.len() ==> answers[i])
}

/// The log holds an answer to each question. Where a search is told the time, it has heard the answers
/// so far; with a clock, the answers are what the clock and the flag have said.
spec fn in_step(limits: Limits, memory: Memory) -> bool {
    &&& memory.asks@.len() == memory.log@.len()
    &&& match limits {
        Limits::Told(answers) => {
            &&& memory.log@ == said(answers@, memory.log@.len())
            &&& memory.asked == if memory.log@.len() < answers@.len() {
                memory.log@.len() as int
            } else {
                answers@.len() as int
            }
        },
        Limits::Clock { deadline, cancel } => {
            &&& clock::is_soon(200, deadline, memory.early)
            &&& heard(memory.asks@, memory.log@, deadline, cancel, memory.early)
        },
    }
}

/// The state that a table and a memory stand for.
spec fn state_of(tt: TranspositionTable, memory: Memory) -> model::State {
    model::State {
        slots: tt@,
        killers: memory.killers@,
        history: memory.history@,
        nodes: memory.nodes,
        asks: memory.asks@,
    }
}

/// `oracle` says what the clock has said so far.
spec fn follows(oracle: Seq<bool>, log: Seq<bool>) -> bool {
    log.len() <= oracle.len() && forall|i: int| 0 <= i < log.len() ==> oracle[i] == #[trigger] log[i]
}

/// `after` continues `before`.
spec fn extends(after: Seq<bool>, before: Seq<bool>) -> bool {
    before.len() <= after.len() && forall|i: int| 0 <= i < before.len() ==> after[i] == #[trigger] before[i]
}

/// A score within a quarter of the range of `i32`.
spec fn is_score(v: int) -> bool {
    -536_870_911 <= v <= 536_870_911
}

/// A bound of a window.
spec fn is_bound(v: int) -> bool {
    -536_870_912 <= v <= 536_870_912
}

spec fn score_of(r: Result<i32, ()>) -> Option<int> {
    match r {
        Ok(v) => Some(v as int),
        Err(_) => None,
    }
}

impl Memory {
    fn new(early: Instant) -> (m: Self)
        ensures
            m.early == early,
            m.asks@ == Seq::<Ask>::empty(),
            m.log@ == Seq::<bool>::empty(),
            m.asked == 0,
            m.nodes == 0,
            m.killers@ == Seq::new(32, |i: int| Killers { first: None, second: None }),
            m.history@ == Seq::new(324, |i: int| 0i32),
    {
        let none = Killers { first: None, second: None };
        let mut killers: [Killers; MAX_PLY] = [none; MAX_PLY];
        let mut i: usize = 0;
        while i < MAX_PLY
            invariant
                i <= 32,
                none == (Killers { first: None, second: None }),
                forall|k: int| 0 <= k < i ==> #[trigger] killers@[k] == none,
            decreases 32 - i,
        {
            killers[i] = none;
            i = i + 1;
        }
        let history: [i32; AREA] = [0; AREA];
        assert(killers@ =~= Seq::new(32, |i: int| Killers { first: None, second: None }));
        assert(history@ =~= Seq::new(324, |i: int| 0i32));
        Memory { killers, history, nodes: 0, early, asked: 0, asks: Ghost(Seq::empty()), log: Ghost(Seq::empty()) }
    }

    /// Looks at the clock.
    fn time_is_up(&mut self, limits: &Limits) -> (r: bool)
        requires
            in_step(*limits, *old(self)),
        ensures
            in_step(*limits, *final(self)),
            final(self).asks@ == old(self).asks@.push(Ask::TimeUp),
            final(self).log@ == old(self).log@.push(r),
            final(self).early == old(self).early,
            final(self).killers == old(self).killers,
            final(self).history == old(self).history,
            final(self).nodes == old(self).nodes,
    {
        let r = limits.expired(self.asked);
        proof {
            if let Limits::Clock { deadline, cancel } = *limits {
                lemma_heard(self.asks@, self.log@, Ask::TimeUp, r, deadline, cancel, self.early);
            }
            self.asks@ = self.asks@.push(Ask::TimeUp);
            self.log@ = self.log@.push(r);
        }
        if let Limits::Told(answers) = limits {
            if self.asked < answers.len() {
                self.asked = self.asked + 1;
            }
            assert(self.log@ =~= said(answers@, self.log@.len()));
        }
        r
    }

    /// Looks ahead for consecutive fours, until `deadline` comes, or unless it is told otherwise.
    fn look(
        &mut self,
        limits: &Limits,
        board: &mut Board,
        attacker: Piece,
        max_depth: usize,
        deadline: Instant,
        Ghost(early): Ghost<bool>,
    ) -> (r: Option<Position>)
        requires
            in_step(*limits, *old(self)),
            looks_until(early, old(self).early, deadline),
        ensures
            in_step(*limits, *final(self)),
            final(self).early == old(self).early,
            final(self).asks@ == old(self).asks@.push(
                model::look_ask(early, old(board)@, attacker, max_depth as int),
            ),
            final(self).log@.len() == old(self).log@.len() + 1,
            extends(final(self).log@, old(self).log@),
            r == model::timed_win(final(self).log@.last(), vcf::vcf_win(old(board)@, attacker, max_depth as int)),
            final(self).killers == old(self).killers,
            final(self).history == old(self).history,
            final(self).nodes == old(self).nodes,
            vcf::unchanged(*old(board), *final(board)),
    {
        let ghost ask = model::look_ask(early, board@, attacker, max_depth as int);
        match limits {
            Limits::Told(_) => {
                let ghost asks = self.asks@;
                let cut = self.time_is_up(limits);
                proof {
                    self.asks@ = asks.push(ask);
                }
                if cut {
                    None
                } else {
                    VcfStrategy::find_win(board, attacker, max_depth)
                }
            },
            Limits::Clock { .. } => {
                let ghost win = vcf::vcf_win(board@, attacker, max_depth as int);
                let ghost asks = vcf::vcf_asks(board@, attacker, max_depth as int);
                let r = VcfStrategy::find_win_timed(board, attacker, max_depth, deadline);
                proof {
                    let cut = !(r == win && (asks > 0 ==> clock::clock_says(deadline, false)));
                    if let Limits::Clock { deadline: latest, cancel } = *limits {
                        assert(asks > 0 ==> clock::clock_says(deadline, cut));
                        lemma_heard(self.asks@, self.log@, ask, cut, latest, cancel, self.early);
                    }
                    self.asks@ = self.asks@.push(ask);
                    self.log@ = self.log@.push(cut);
                }
                r
            },
        }
    }

    /// Keeps the move that has refuted the one before it.
    fn refuted(&mut self, ply: usize, mv: Position, depth: usize)
        requires
            rules::holds(mv),
            depth <= 16,
        ensures
            final(self).log@ == old(self).log@,
            final(self).asks@ == old(self).asks@,
            final(self).early == old(self).early,
            final(self).asked == old(self).asked,
            final(self).nodes == old(self).nodes,
            forall|tt: TranspositionTable| #[trigger]
                state_of(tt, *final(self)) == model::refuted(state_of(tt, *old(self)), ply as nat, mv, depth as nat),
    {
        let ghost before = *self;
        let p: usize = if ply < MAX_PLY - 1 {
            ply
        } else {
            MAX_PLY - 1
        };
        let same = match self.killers[p].first {
            Some(q) => q == mv,
            None => false,
        };
        if !same {
            self.killers[p] = Killers { first: Some(mv), second: self.killers[p].first };
        }
        let index: usize = mv.row * BOARD_SIZE + mv.column;
        proof {
            assert(depth * depth <= 256) by (nonlinear_arith)
                requires
                    depth <= 16,
            ;
        }
        self.history[index] = self.history[index].wrapping_add((depth * depth) as i32);
        proof {
            assert forall|tt: TranspositionTable| #[trigger]
                state_of(tt, *self) == model::refuted(state_of(tt, before), ply as nat, mv, depth as nat) by {
                assert(state_of(tt, *self) =~= model::refuted(state_of(tt, before), ply as nat, mv, depth as nat));
            }
        }
    }
}

/// What a table entry leaves of a window, and what it answers at once.
pub struct Narrowed {
    pub alpha: i32,
    pub beta: i32,
    pub answer: Option<i32>,
}

/// Narrows a window by a table entry.
pub fn narrow(entry: Option<TTEntry>, depth: usize, alpha: i32, beta: i32) -> (r: Narrowed)
    requires
        depth < 256,
    ensures
        r.alpha == model::window(entry, depth as nat, alpha as int, beta as int).alpha,
        r.beta == model::window(entry, depth as nat, alpha as int, beta as int).beta,
        match r.answer {
            Some(v) => model::window(entry, depth as nat, alpha as int, beta as int).answer == Some(v as int),
            None => model::window(entry, depth as nat, alpha as int, beta as int).answer is None,
        },
{
    match entry {
        Some(e) => {
            if (e.depth as usize) < depth {
                return Narrowed { alpha, beta, answer: None };
            }
            if e.flag == TT_FLAG_EXACT {
                return Narrowed { alpha, beta, answer: Some(e.score) };
            }
            let a = if e.flag == TT_FLAG_LOWER && e.score > alpha {
                e.score
            } else {
                alpha
            };
            let b = if e.flag == TT_FLAG_UPPER && e.score < beta {
                e.score
            } else {
                beta
            };
            let answer = if a >= b {
                Some(e.score)
            } else {
                None
            };
            Narrowed { alpha: a, beta: b, answer }
        },
        None => Narrowed { alpha, beta, answer: None },
    }
}

/// What sort of result a score is that was found in the window from `alpha` to `beta`.
pub fn bound_flag(score: i32, alpha: i32, beta: i32) -> (r: u8)
    ensures
        r == model::bound_flag(score as int, alpha as int, beta as int),
{
    if score <= alpha {
        TT_FLAG_UPPER
    } else if score >= beta {
        TT_FLAG_LOWER
    } else {
        TT_FLAG_EXACT
    }
}

/// The value of a leaf, given the forced wins that were found for the player to move and, where
/// there is none, for the opponent.
pub fn leaf_value(board: &Board, color: Piece, own: Option<Position>, theirs: Option<Position>) -> (r: i32)
    ensures
        r == model::leaf_value(board@, color, own, theirs),
        -12_000_180 <= r <= 12_000_180,
{
    if own.is_some() {
        return WIN_SCORE - 10;
    }
    if theirs.is_some() {
        return -(WIN_SCORE - 10);
    }
    proof {
        lemma_evaluation_bounds(board@, color);
        lemma_evaluation_bounds(board@, rules::other(color));
    }
    let candidates = board.candidate_positions();
    board.evaluate_for_candidates(color, candidates.as_slice()) - board.evaluate_for_candidates(
        color.opponent(),
        candidates.as_slice(),
    )
}

/// The value that the patterns of a position give one player is none below zero and none above
/// that of three winning moves.
proof fn lemma_evaluation_bounds(s: rules::Cells, color: Piece)
    requires
        rules::is_cells(s),
    ensures
        0 <= rules::evaluation(s, rules::candidates(s), color) <= 12_000_180,
{
    let all = rules::scores(s, rules::candidates(s), color);
    let ranked = ranking::ranked(all, ranking::by_value());
    ranking::lemma_ranked(all, ranking::by_value());
    assert forall|k: int| 0 <= k < ranked.len() implies 44 <= #[trigger] ranked[k] <= 4_000_060 by {
        assert(ranked.contains(ranked[k]));
        let j = choose|j: int| 0 <= j < all.len() && all[j] == ranked[k];
        crate::laws::lemma_candidate_is_free(s, j);
        rules::law_million_means_five(s, rules::candidates(s)[j], color);
    }
    reveal_with_fuel(rules::sum, 4);
    if ranked.len() > 0 {
        assert(ranked.take(1).drop_last() =~= ranked.take(0));
    }
    if ranked.len() > 1 {
        assert(ranked.take(2).drop_last() =~= ranked.take(1));
    }
    if ranked.len() > 2 {
        assert(ranked.take(3).drop_last() =~= ranked.take(2));
    }
}

/// `a` is `p`.
fn is_move(a: Option<Position>, p: Position) -> (r: bool)
    ensures
        r == (a == Some(p)),
{
    match a {
        Some(q) => q == p,
        None => false,
    }
}

/// How early a move is tried.
fn order_value(
    pos: Position,
    color: Piece,
    board: &Board,
    killers: Killers,
    history: &[i32; AREA],
    table_move: Option<Position>,
) -> (r: i64)
    requires
        rules::is_free(board@, pos),
    ensures
        r == model::order_value(board@, color, killers, history@, table_move, pos),
{
    if board.would_win(pos, color) {
        return 100_000_000;
    }
    if board.would_win(pos, color.opponent()) {
        return 90_000_000;
    }
    if is_move(table_move, pos) {
        return 80_000_000;
    }
    if is_move(killers.first, pos) {
        return 10_000_000;
    }
    if is_move(killers.second, pos) {
        return 9_000_000;
    }
    let attack = board.score_move(pos, color) as i64;
    let defence = board.score_move(pos, color.opponent()) as i64;
    let past = history[pos.row * BOARD_SIZE + pos.column] as i64;
    attack + defence + past
}

/// The candidates in the order in which they are tried.
fn order_moves(board: &Board, color: Piece, ply: usize, memory: &Memory, table_move: Option<Position>) -> (r: Vec<
    Position,
>)
    ensures
        forall|tt: TranspositionTable|
            r@ == #[trigger] model::ordered(board@, color, ply as nat, state_of(tt, *memory), table_move),
{
    let p: usize = if ply < MAX_PLY - 1 {
        ply
    } else {
        MAX_PLY - 1
    };
    let killers = memory.killers[p];
    let candidates = board.candidate_positions();
    let ghost key = model::by_order(board@, color, killers, memory.history@, table_move);
    let mut items: Vec<(Position, i128)> = Vec::new();
    let mut i: usize = 0;
    while i < candidates.len()
        invariant
            i <= candidates@.len(),
            candidates@ == rules::candidates(board@),
            key == model::by_order(board@, color, killers, memory.history@, table_move),
            items@.len() == i,
            forall|k: int|
                0 <= k < i ==> (#[trigger] items@[k]).0 == candidates@[k] && items@[k].1 == key(candidates@[k]),
        decreases candidates@.len() - i,
    {
        proof {
            crate::laws::lemma_candidate_is_free(board@, i as int);
        }
        items.push(
            (candidates[i], order_value(candidates[i], color, board, killers, &memory.history, table_move) as i128),
        );
        i = i + 1;
    }
    assert(ranking::firsts(items@) =~= candidates@);
    ranking::rank_by(items, Ghost(key))
}

/// The place of `p` among `moves`.
fn place_of(moves: &Vec<Position>, p: Position) -> (r: Option<usize>)
    ensures
        match r {
            Some(i) => model::place_of(moves@, p, 0) == Some(i as int) && i < moves@.len(),
            None => model::place_of(moves@, p, 0) is None,
        },
{
    let mut i: usize = 0;
    while i < moves.len()
        invariant
            i <= moves@.len(),
            model::place_of(moves@, p, 0) == model::place_of(moves@, p, i as int),
        decreases moves@.len() - i,
    {
        if moves[i] == p {
            return Some(i);
        }
        i = i + 1;
    }
    None
}

/// Changes `p`, where it is among `moves`, and the first of them round.
fn promote(moves: &mut Vec<Position>, p: Option<Position>)
    ensures
        final(moves)@ == model::promoted(old(moves)@, p),
{
    if let Some(q) = p {
        if let Some(i) = place_of(moves, q) {
            let first = moves[0];
            let other = moves[i];
            moves[0] = other;
            moves[i] = first;
        }
    }
}

/// The value of a node to the player to move; an error where the time is up.
fn node(
    board: &mut Board,
    depth: usize,
    alpha: i32,
    beta: i32,
    color: Piece,
    ply: usize,
    tt: &mut TranspositionTable,
    memory: &mut Memory,
    limits: &Limits,
) -> (r: Result<i32, ()>)
    requires
        in_step(*limits, *old(memory)),
        ply + depth <= 16,
        is_bound(alpha as int),
        is_bound(beta as int),
        table::scores_bounded(old(tt)@),
    ensures
        in_step(*limits, *final(memory)),
        extends(final(memory).log@, old(memory).log@),
        forall|oracle: Seq<bool>| #[trigger]
            follows(oracle, final(memory).log@) ==> model::node(
                old(board)@,
                old(board).hash,
                depth as nat,
                alpha as int,
                beta as int,
                color,
                ply as nat,
                state_of(*old(tt), *old(memory)),
                oracle,
            ) == (score_of(r), state_of(*final(tt), *final(memory))),
        r is Ok ==> vcf::unchanged(*old(board), *final(board)),
        r matches Ok(v) ==> is_score(v as int),
        table::scores_bounded(final(tt)@),
    decreases depth, 3int,
{
    memory.nodes = memory.nodes.wrapping_add(1);
    if memory.nodes % DEADLINE_POLL_NODES == 0 {
        if memory.time_is_up(limits) {
            proof {
                let n = old(memory).log@.len() as int;
                assert forall|oracle: Seq<bool>| #[trigger] follows(oracle, memory.log@) implies oracle[n] by {
                    assert(memory.log@[n]);
                }
            }
            return Err(());
        }
        proof {
            let n = old(memory).log@.len() as int;
            assert(!memory.log@[n]);
        }
    }
    let ghost mid = memory.log@;
    let r = counted_node(board, depth, alpha, beta, color, ply, tt, memory, limits);
    proof {
        lemma_extends(memory.log@, mid, old(memory).log@);
        assert forall|oracle: Seq<bool>| #[trigger] follows(oracle, memory.log@) implies follows(oracle, mid) by {
            lemma_follows(oracle, memory.log@, mid);
        }
    }
    r
}

proof fn lemma_follows(oracle: Seq<bool>, after: Seq<bool>, before: Seq<bool>)
    requires
        follows(oracle, after),
        extends(after, before),
    ensures
        follows(oracle, before),
{
    assert forall|i: int| 0 <= i < before.len() implies oracle[i] == #[trigger] before[i] by {
        assert(after[i] == before[i]);
    }
}

proof fn lemma_extends(c: Seq<bool>, b: Seq<bool>, a: Seq<bool>)
    requires
        extends(c, b),
        extends(b, a),
    ensures
        extends(c, a),
{
    assert forall|i: int| 0 <= i < a.len() implies c[i] == #[trigger] a[i] by {
        assert(b[i] == a[i]);
    }
}

/// The value of a node, once it is counted.
fn counted_node(
    board: &mut Board,
    depth: usize,
    alpha: i32,
    beta: i32,
    color: Piece,
    ply: usize,
    tt: &mut TranspositionTable,
    memory: &mut Memory,
    limits: &Limits,
) -> (r: Result<i32, ()>)
    requires
        in_step(*limits, *old(memory)),
        ply + depth <= 16,
        is_bound(alpha as int),
        is_bound(beta as int),
        table::scores_bounded(old(tt)@),
    ensures
        in_step(*limits, *final(memory)),
        extends(final(memory).log@, old(memory).log@),
        forall|oracle: Seq<bool>| #[trigger]
            follows(oracle, final(memory).log@) ==> model::counted_node(
                old(board)@,
                old(board).hash,
                depth as nat,
                alpha as int,
                beta as int,
                color,
                ply as nat,
                state_of(*old(tt), *old(memory)),
                oracle,
            ) == (score_of(r), state_of(*final(tt), *final(memory))),
        r is Ok ==> vcf::unchanged(*old(board), *final(board)),
        r matches Ok(v) ==> is_score(v as int),
        table::scores_bounded(final(tt)@),
    decreases depth, 2int,
{
    let ghost s = board@;
    let ghost st = state_of(*tt, *memory);
    let hash = board.hash;
    let entry = tt.probe(hash);
    let window = narrow(entry, depth, alpha, beta);
    if let Some(answer) = window.answer {
        return Ok(answer);
    }
    if depth == 0 {
        return Ok(leaf(board, color, tt, memory, limits));
    }
    let table_move = match entry {
        Some(e) => e.best_move(),
        None => None,
    };
    let ghost ordered = model::ordered(s, color, ply as nat, st, table_move);
    let mut moves = order_moves(board, color, ply, memory, table_move);
    assert(moves@ == ordered);
    proof {
        ranking::lemma_ranked(
            rules::candidates(s),
            model::by_order(s, color, model::killers_at(st, ply as nat), st.history, table_move),
        );
    }
    if moves.len() == 0 {
        return Ok(0);
    }
    let limit: usize = adaptive_inner_limit(board.score_move(moves[0], color));
    moves.truncate(limit);
    assert(moves@ =~= model::limited(s, color, ordered));
    proof {
        assert forall|k: int| 0 <= k < moves@.len() implies rules::is_free(s, #[trigger] moves@[k]) by {
            assert(moves@[k] == ordered[k]);
            assert(ordered.contains(ordered[k]));
            crate::laws::law_candidates(s);
        }
    }
    match best_move(board, &moves, depth - 1, window.alpha, window.beta, color, ply, tt, memory, limits) {
        Ok((best_score, best)) => {
            let flag = bound_flag(best_score, window.alpha, window.beta);
            let ghost before = tt@;
            tt.store(hash, depth as u8, best_score, flag, best);
            proof {
                lemma_stored_bounded(
                    before,
                    table::entry_of(hash, depth as u8, best_score, flag, best),
                );
            }
            Ok(best_score)
        },
        Err(()) => Err(()),
    }
}

/// Storing a score keeps the scores of the table bounded.
proof fn lemma_stored_bounded(slots: table::Slots, e: TTEntry)
    requires
        table::scores_bounded(slots),
        is_score(e.score as int),
        slots.len() == 1_048_576,
    ensures
        table::scores_bounded(table::stored(slots, e)),
{
    assert(is_score(slots[table::slot_of(e.key)].deep.score as int));
}

/// The value of a leaf, which goes into the table.
fn leaf(board: &mut Board, color: Piece, tt: &mut TranspositionTable, memory: &mut Memory, limits: &Limits) -> (r: i32)
    requires
        in_step(*limits, *old(memory)),
        table::scores_bounded(old(tt)@),
    ensures
        in_step(*limits, *final(memory)),
        extends(final(memory).log@, old(memory).log@),
        forall|oracle: Seq<bool>| #[trigger]
            follows(oracle, final(memory).log@) ==> model::leaf(
                old(board)@,
                old(board).hash,
                color,
                state_of(*old(tt), *old(memory)),
                oracle,
            ) == (Some(r as int), state_of(*final(tt), *final(memory))),
        vcf::unchanged(*old(board), *final(board)),
        is_score(r as int),
        table::scores_bounded(final(tt)@),
{
    let ghost s = board@;
    let ghost log = memory.log@;
    let deadline = clock::after(LEAF_VCF_BUDGET_MS);
    let own = memory.look(limits, board, color, LEAF_VCF_DEPTH, deadline, Ghost(false));
    let ghost log1 = memory.log@;
    let theirs = if own.is_some() {
        None
    } else {
        memory.look(limits, board, color.opponent(), LEAF_VCF_DEPTH, deadline, Ghost(false))
    };
    proof {
        assert(memory.log@[log.len() as int] == log1[log.len() as int]);
    }
    let score = leaf_value(board, color, own, theirs);
    let hash = board.hash;
    let ghost before = tt@;
    tt.store(hash, 0, score, TT_FLAG_EXACT, None);
    proof {
        lemma_stored_bounded(before, table::entry_of(hash, 0, score, TT_FLAG_EXACT, None));
        assert forall|oracle: Seq<bool>| #[trigger] follows(oracle, memory.log@) implies model::leaf(
            s,
            hash,
            color,
            state_of(*old(tt), *old(memory)),
            oracle,
        ) == (Some(score as int), state_of(*tt, *memory)) by {
            assert(oracle[log.len() as int] == memory.log@[log.len() as int]);
            if own is None {
                let k = log.len() as int + 1;
                assert(oracle[k] == memory.log@[k]);
            }
            assert(model::leaf(s, hash, color, state_of(*old(tt), *old(memory)), oracle).1 =~= state_of(*tt, *memory));
        }
    }
    score
}

/// The best of `moves`, and its value.
fn best_move(
    board: &mut Board,
    moves: &Vec<Position>,
    below: usize,
    alpha: i32,
    beta: i32,
    color: Piece,
    ply: usize,
    tt: &mut TranspositionTable,
    memory: &mut Memory,
    limits: &Limits,
) -> (r: Result<(i32, Option<Position>), ()>)
    requires
        in_step(*limits, *old(memory)),
        ply + below < 16,
        is_bound(alpha as int),
        is_bound(beta as int),
        table::scores_bounded(old(tt)@),
        moves@.len() > 0,
        forall|k: int| 0 <= k < moves@.len() ==> rules::is_free(old(board)@, #[trigger] moves@[k]),
    ensures
        in_step(*limits, *final(memory)),
        extends(final(memory).log@, old(memory).log@),
        forall|oracle: Seq<bool>| #[trigger]
            follows(oracle, final(memory).log@) ==> model::best_move(
                old(board)@,
                old(board).hash,
                moves@,
                0,
                below as nat,
                alpha as int,
                beta as int,
                (rules::no_score(), None),
                color,
                ply as nat,
                state_of(*old(tt), *old(memory)),
                oracle,
            ) == (
                match r {
                    Ok(b) => Some((b.0 as int, b.1)),
                    Err(_) => None,
                },
                state_of(*final(tt), *final(memory)),
            ),
        r is Ok ==> vcf::unchanged(*old(board), *final(board)),
        r matches Ok(b) ==> is_score(b.0 as int),
        table::scores_bounded(final(tt)@),
    decreases below + 1, 1int,
{
    let ghost s = board@;
    let ghost hash = board.hash;
    let ghost start = *board;
    let ghost st0 = state_of(*tt, *memory);
    let ghost log0 = memory.log@;
    let mut low = alpha;
    let mut best_score: i32 = SCORE_UNPLAYABLE;
    let mut best: Option<Position> = None;
    let mut i: usize = 0;
    while i < moves.len()
        invariant
            i <= moves@.len(),
            moves@.len() > 0,
            ply + below < 16,
            s.len() == 324,
            s == start@,
            hash == start.hash,
            start == *old(board),
            st0 == state_of(*old(tt), *old(memory)),
            log0 == old(memory).log@,
            vcf::unchanged(start, *board),
            is_bound(low as int),
            is_bound(beta as int),
            i > 0 ==> low < beta,
            i > 0 ==> is_score(best_score as int),
            i == 0 ==> best_score == rules::no_score() && best is None && low == alpha,
            table::scores_bounded(tt@),
            in_step(*limits, *memory),
            extends(memory.log@, log0),
            forall|k: int| 0 <= k < moves@.len() ==> rules::is_free(s, #[trigger] moves@[k]),
            forall|oracle: Seq<bool>| #[trigger]
                follows(oracle, memory.log@) ==> model::best_move(
                    s,
                    hash,
                    moves@,
                    0,
                    below as nat,
                    alpha as int,
                    beta as int,
                    (rules::no_score(), None),
                    color,
                    ply as nat,
                    st0,
                    oracle,
                ) == model::best_move(
                    s,
                    hash,
                    moves@,
                    i as int,
                    below as nat,
                    low as int,
                    beta as int,
                    (best_score as int, best),
                    color,
                    ply as nat,
                    state_of(*tt, *memory),
                    oracle,
                ),
        decreases moves@.len() - i,
    {
        let mv = moves[i];
        let ghost log1 = memory.log@;
        assert(rules::is_free(s, moves@[i as int]));
        let value = after_move(board, mv, i == 0, below, low, beta, color, ply, tt, memory, limits);
        proof {
            lemma_extends(memory.log@, log1, log0);
            assert forall|oracle: Seq<bool>| #[trigger] follows(oracle, memory.log@) implies follows(oracle, log1) by {
                lemma_follows(oracle, memory.log@, log1);
            }
        }
        match value {
            Ok(v) => {
                if v > best_score {
                    best_score = v;
                    best = Some(mv);
                }
                if v > low {
                    low = v;
                }
                if low >= beta {
                    memory.refuted(ply, mv, below + 1);
                    return Ok((best_score, best));
                }
            },
            Err(()) => {
                return Err(());
            },
        }
        i = i + 1;
    }
    Ok((best_score, best))
}

/// The value of `mv` to the player who makes it.
fn after_move(
    board: &mut Board,
    mv: Position,
    full: bool,
    below: usize,
    alpha: i32,
    beta: i32,
    color: Piece,
    ply: usize,
    tt: &mut TranspositionTable,
    memory: &mut Memory,
    limits: &Limits,
) -> (r: Result<i32, ()>)
    requires
        in_step(*limits, *old(memory)),
        ply + below < 16,
        is_bound(alpha as int),
        is_bound(beta as int),
        full || alpha < 536_870_912,
        table::scores_bounded(old(tt)@),
        rules::is_free(old(board)@, mv),
    ensures
        in_step(*limits, *final(memory)),
        extends(final(memory).log@, old(memory).log@),
        forall|oracle: Seq<bool>| #[trigger]
            follows(oracle, final(memory).log@) ==> model::after_move(
                old(board)@,
                old(board).hash,
                mv,
                full,
                below as nat,
                alpha as int,
                beta as int,
                color,
                ply as nat,
                state_of(*old(tt), *old(memory)),
                oracle,
            ) == (score_of(r), state_of(*final(tt), *final(memory))),
        r is Ok ==> vcf::unchanged(*old(board), *final(board)),
        r matches Ok(v) ==> is_score(v as int),
        table::scores_bounded(final(tt)@),
    decreases below + 1, 0int,
{
    if board.would_win(mv, color) {
        return Ok(WIN_SCORE);
    }
    let ghost s = board@;
    let opponent = color.opponent();
    proof {
        rules::law_undo_reverts_place(s, board.hash, mv, color);
    }
    let placed = board.place(mv, color);
    assert(placed is Ok);
    if full {
        return match node(board, below, -beta, -alpha, opponent, ply + 1, tt, memory, limits) {
            Ok(v) => {
                board.undo(mv);
                Ok(-v)
            },
            Err(()) => Err(()),
        };
    }
    match node(board, below, -alpha - 1, -alpha, opponent, ply + 1, tt, memory, limits) {
        Ok(v) => {
            let score = -v;
            if score > alpha && score < beta {
                let ghost mid = memory.log@;
                let r = node(board, below, -beta, -alpha, opponent, ply + 1, tt, memory, limits);
                proof {
                    lemma_extends(memory.log@, mid, old(memory).log@);
                    assert forall|oracle: Seq<bool>| #[trigger] follows(oracle, memory.log@) implies follows(
                        oracle,
                        mid,
                    ) by {
                        lemma_follows(oracle, memory.log@, mid);
                    }
                }
                match r {
                    Ok(w) => {
                        board.undo(mv);
                        Ok(-w)
                    },
                    Err(()) => Err(()),
                }
            } else {
                board.undo(mv);
                Ok(score)
            }
        },
        Err(()) => Err(()),
    }
}

/// A depth of the search: the best move, and the score of every move that was tried.
struct Level {
    best: Option<(Position, i32, String)>,
    scores: Vec<(Position, i32)>,
}

/// `level` is the depth `d`.
spec fn is_depth(level: Level, d: model::Depth) -> bool {
    super::is_choice(level.best, d.best) && level.scores@ == d.scores
}

/// The outcome `r` of a depth is `d`.
spec fn is_outcome(r: Result<Level, ()>, d: Option<model::Depth>) -> bool {
    match (r, d) {
        (Ok(level), Some(depth)) => is_depth(level, depth),
        (Err(_), None) => true,
        _ => false,
    }
}

/// How a score of the search is rated.
fn search_reason(score: i32) -> (r: &'static str)
    ensures
        r@ == model::search_reason(score as int),
{
    if score >= WIN_SCORE / 2 {
        "forced win"
    } else if score >= 50_000 {
        "strong"
    } else {
        "search"
    }
}

/// Searches one depth as a whole; an error where the time is up.
fn whole_depth(
    board: &Board,
    color: Piece,
    candidates: &Vec<Position>,
    depth: usize,
    tt: &mut TranspositionTable,
    memory: &mut Memory,
    limits: &Limits,
) -> (r: Result<Level, ()>)
    requires
        in_step(*limits, *old(memory)),
        1 <= depth <= 16,
        table::scores_bounded(old(tt)@),
        forall|k: int| 0 <= k < candidates@.len() ==> rules::is_free(board@, #[trigger] candidates@[k]),
    ensures
        in_step(*limits, *final(memory)),
        extends(final(memory).log@, old(memory).log@),
        forall|oracle: Seq<bool>| #[trigger]
            follows(oracle, final(memory).log@) ==> ({
                let m = model::whole_depth(
                    board@,
                    board.hash,
                    candidates@,
                    depth as nat,
                    color,
                    state_of(*old(tt), *old(memory)),
                    oracle,
                );
                is_outcome(r, m.0) && m.1 == state_of(*final(tt), *final(memory))
            }),
        r matches Ok(level) ==> (level.best matches Some(b) ==> candidates@.contains(b.0)),
        table::scores_bounded(final(tt)@),
{
    let ghost s = board@;
    let ghost hash = board.hash;
    let ghost st0 = state_of(*tt, *memory);
    let ghost log0 = memory.log@;
    let mut work = board.clone();
    let table_move = match tt.probe(board.hash) {
        Some(e) => e.best_move(),
        None => None,
    };
    let mut moves = candidates.clone();
    assert(moves@ =~= candidates@);
    promote(&mut moves, table_move);
    proof {
        lemma_promoted(candidates@, table_move);
    }
    let ghost none = model::Depth { best: None, scores: Seq::empty() };
    let mut level = Level { best: None, scores: Vec::new() };
    let ghost mut done = none;
    let mut alpha: i32 = SCORE_UNPLAYABLE;
    let mut i: usize = 0;
    assert(level.scores@ =~= none.scores);
    while i < moves.len()
        invariant
            i <= moves@.len(),
            1 <= depth <= 16,
            s.len() == 324,
            s == board@,
            hash == board.hash,
            work@ == s,
            work.hash == hash,
            st0 == state_of(*old(tt), *old(memory)),
            log0 == old(memory).log@,
            none == (model::Depth { best: None, scores: Seq::empty() }),
            moves@ == model::promoted(candidates@, model::entry_move(table::probed(st0.slots, hash))),
            -536_870_912 <= alpha <= 536_870_911,
            is_depth(level, done),
            level.best matches Some(b) ==> candidates@.contains(b.0),
            table::scores_bounded(tt@),
            in_step(*limits, *memory),
            extends(memory.log@, log0),
            forall|k: int|
                0 <= k < moves@.len() ==> rules::is_free(s, #[trigger] moves@[k]) && candidates@.contains(moves@[k]),
            forall|oracle: Seq<bool>| #[trigger]
                follows(oracle, memory.log@) ==> model::root_moves(
                    s,
                    hash,
                    moves@,
                    0,
                    depth as nat,
                    rules::no_score(),
                    none,
                    color,
                    st0,
                    oracle,
                ) == model::root_moves(
                    s,
                    hash,
                    moves@,
                    i as int,
                    depth as nat,
                    alpha as int,
                    done,
                    color,
                    state_of(*tt, *memory),
                    oracle,
                ),
        decreases moves@.len() - i,
    {
        let mv = moves[i];
        assert(rules::is_free(s, moves@[i as int]));
        let ghost log1 = memory.log@;
        let up = memory.time_is_up(limits);
        let ghost log2 = memory.log@;
        proof {
            lemma_extends(log2, log1, log0);
            assert(log2[log1.len() as int] == up);
            assert forall|oracle: Seq<bool>| #[trigger] follows(oracle, log2) implies follows(oracle, log1)
                && oracle[log1.len() as int] == up by {
                lemma_follows(oracle, log2, log1);
                assert(oracle[log1.len() as int] == log2[log1.len() as int]);
            }
        }
        if up {
            return Err(());
        }
        if work.would_win(mv, color) {
            let mut reason = "win depth ".to_owned();
            text::push_decimal(&mut reason, depth as u64);
            level.scores.push((mv, WIN_SCORE));
            level.best = Some((mv, WIN_SCORE, reason));
            return Ok(level);
        }
        let value = after_move(
            &mut work,
            mv,
            i == 0 || depth == 1,
            depth - 1,
            alpha,
            ROOT_BETA,
            color,
            0,
            tt,
            memory,
            limits,
        );
        proof {
            lemma_extends(memory.log@, log2, log0);
            assert forall|oracle: Seq<bool>| #[trigger] follows(oracle, memory.log@) implies follows(oracle, log2) by {
                lemma_follows(oracle, memory.log@, log2);
            }
        }
        match value {
            Ok(v) => {
                level.scores.push((mv, v));
                if v > alpha {
                    alpha = v;
                }
                let keep = match &level.best {
                    Some(b) => b.1 >= v,
                    None => false,
                };
                proof {
                    done = model::Depth {
                        best: if done.best is Some && (done.best->0).1 >= v {
                            done.best
                        } else {
                            Some((mv, v as int, model::search_reason(v as int)))
                        },
                        scores: done.scores.push((mv, v)),
                    };
                }
                if !keep {
                    level.best = Some((mv, v, search_reason(v).to_owned()));
                }
            },
            Err(()) => {
                return Err(());
            },
        }
        i = i + 1;
    }
    Ok(level)
}

pub proof fn lemma_place_of(moves: Seq<Position>, p: Position, i: int)
    requires
        0 <= i,
    ensures
        model::place_of(moves, p, i) matches Some(k) ==> i <= k < moves.len() && moves[k] == p,
    decreases moves.len() - i,
{
    if i < moves.len() && moves[i] != p {
        lemma_place_of(moves, p, i + 1);
    }
}

/// Promoting a move keeps the moves that there are.
proof fn lemma_promoted(moves: Seq<Position>, p: Option<Position>)
    ensures
        model::promoted(moves, p).len() == moves.len(),
        forall|k: int|
            0 <= k < moves.len() ==> moves.contains(#[trigger] model::promoted(moves, p)[k]),
{
    if let Some(q) = p {
        lemma_place_of(moves, q, 0);
    }
}

/// The ranked candidates are free cells.
proof fn lemma_ranked_is_free(s: rules::Cells, color: Piece)
    requires
        rules::is_cells(s),
    ensures
        ranking::ranked(rules::candidates(s), super::by_worth(s, color)).len() == rules::candidates(s).len(),
        forall|k: int|
            0 <= k < rules::candidates(s).len() ==> rules::is_free(
                s,
                #[trigger] ranking::ranked(rules::candidates(s), super::by_worth(s, color))[k],
            ),
{
    let ranked = ranking::ranked(rules::candidates(s), super::by_worth(s, color));
    ranking::lemma_ranked(rules::candidates(s), super::by_worth(s, color));
    crate::laws::law_candidates(s);
    assert forall|k: int| 0 <= k < ranked.len() implies rules::is_free(s, #[trigger] ranked[k]) by {
        assert(ranked.contains(ranked[k]));
    }
}

/// The moves that the root tries are free cells, and there are some where there are candidates.
proof fn lemma_root_is_free(s: rules::Cells, color: Piece, block: Option<Position>)
    requires
        rules::is_cells(s),
        block matches Some(p) ==> rules::is_free(s, p),
    ensures
        model::root_candidates(s, color, block).len() > 0 || rules::candidates(s).len() == 0,
        forall|k: int|
            0 <= k < model::root_candidates(s, color, block).len() ==> rules::is_free(
                s,
                #[trigger] model::root_candidates(s, color, block)[k],
            ),
{
    lemma_ranked_is_free(s, color);
    let ranked = ranking::ranked(rules::candidates(s), super::by_worth(s, color));
    let moves = if ranked.len() <= 15 {
        ranked
    } else {
        ranked.take(15)
    };
    lemma_promoted(moves, block);
    let r = model::root_candidates(s, color, block);
    assert forall|k: int| 0 <= k < r.len() implies rules::is_free(s, #[trigger] r[k]) by {
        if let Some(p) = block {
            if model::place_of(moves, p, 0) is Some {
                assert(moves.contains(model::promoted(moves, block)[k]));
            }
        }
    }
}

/// The moves that the root tries.
fn root_candidates(board: &Board, color: Piece, block: Option<Position>) -> (r: Vec<Position>)
    requires
        block matches Some(p) ==> rules::is_free(board@, p),
    ensures
        r@ == model::root_candidates(board@, color, block),
        r@.len() > 0 || rules::candidates(board@).len() == 0,
        forall|k: int| 0 <= k < r@.len() ==> rules::is_free(board@, #[trigger] r@[k]),
{
    let mut moves = ranked_candidates(board, color);
    let ghost ranked = moves@;
    proof {
        lemma_root_is_free(board@, color, block);
    }
    moves.truncate(ROOT_CANDIDATE_LIMIT);
    let ghost first = moves@;
    assert(first =~= if ranked.len() <= 15 {
        ranked
    } else {
        ranked.take(15)
    });
    match block {
        Some(p) => match place_of(&moves, p) {
            Some(_) => {
                promote(&mut moves, block);
            },
            None => {
                moves.insert(0, p);
                assert(moves@ =~= seq![p] + first);
            },
        },
        None => {},
    }
    moves
}

/// A callback of the type `F` has taken what `report` says, and returned.
pub open spec fn took<F: FnMut(Position, i32, &str, usize, &[(Position, i32)])>(report: Report) -> bool {
    exists|f: F, score: i32, reason: &str, depth: usize, scores: &[(Position, i32)]|
        score == report.score && reason@ == report.reason && depth == report.depth && scores@ == report.scores
            && #[trigger] call_ensures(f, (report.position, score, reason, depth, scores), ())
}

/// A callback of the type `F` has taken each of `reports`.
pub open spec fn took_all<F: FnMut(Position, i32, &str, usize, &[(Position, i32)])>(reports: Seq<Report>) -> bool {
    forall|i: int| 0 <= i < reports.len() ==> took::<F>(#[trigger] reports[i])
}

/// Hands a report on, and the callback back.
fn tell<F>(on_depth: F, position: Position, score: i32, reason: &str, depth: usize, scores: &[(Position, i32)]) -> (r:
    F) where F: FnMut(Position, i32, &str, usize, &[(Position, i32)])
    requires
        forall|f: F, p: Position, v: i32, t: &str, d: usize, a: &[(Position, i32)]| #[trigger]
            call_requires(f, (p, v, t, d, a)),
    ensures
        took::<F>(
            (Report { position, score: score as int, reason: reason@, depth: depth as nat, scores: scores@ }),
        ),
{
    let mut on_depth = on_depth;
    on_depth(position, score, reason, depth, scores);
    let ghost report = Report { position, score: score as int, reason: reason@, depth: depth as nat, scores: scores@ };
    proof {
        let f = choose|f: F| #[trigger] call_ensures(f, (position, score, reason, depth, scores), ());
        assert(call_ensures(f, (position, score, reason, depth, scores), ()));
        assert(call_ensures(f, (report.position, score, reason, depth, scores), ()));
    }
    on_depth
}

/// With each oracle that goes on from `log`, what is told from the state `st0` on is `told`, and then, if
/// the search is `running`, what is told from `depth` and `st` on.
#[verifier::opaque]
spec fn tells_first(
    s: rules::Cells,
    hash: u64,
    moves: Seq<Position>,
    color: Piece,
    st0: model::State,
    log: Seq<bool>,
    told: Seq<Report>,
    running: bool,
    depth: nat,
    st: model::State,
) -> bool {
    forall|oracle: Seq<bool>| #[trigger]
        follows(oracle, log) ==> model::reports(s, hash, moves, 1, color, st0, oracle) == if running {
            told + model::reports(s, hash, moves, depth, color, st, oracle)
        } else {
            told
        }
}

/// Before the first depth nothing is told.
proof fn lemma_tells_nothing(
    s: rules::Cells,
    hash: u64,
    moves: Seq<Position>,
    color: Piece,
    st0: model::State,
    log: Seq<bool>,
)
    ensures
        tells_first(s, hash, moves, color, st0, log, Seq::empty(), true, 1, st0),
{
    reveal(tells_first);
    assert forall|oracle: Seq<bool>| #[trigger] follows(oracle, log) implies model::reports(
        s,
        hash,
        moves,
        1,
        color,
        st0,
        oracle,
    ) == Seq::<Report>::empty() + model::reports(s, hash, moves, 1, color, st0, oracle) by {
        let all = model::reports(s, hash, moves, 1, color, st0, oracle);
        assert(all =~= Seq::<Report>::empty() + all);
    }
}

/// Where the time is up, or there is no depth left, nothing more is told.
proof fn lemma_tells_no_more(
    s: rules::Cells,
    hash: u64,
    moves: Seq<Position>,
    color: Piece,
    st0: model::State,
    log: Seq<bool>,
    after: Seq<bool>,
    told: Seq<Report>,
    depth: nat,
    st: model::State,
    next: model::State,
)
    requires
        tells_first(s, hash, moves, color, st0, log, told, true, depth, st),
        st.asks.len() == log.len(),
        extends(after, log),
        depth > 16 || after.len() > log.len() && after[log.len() as int],
    ensures
        tells_first(s, hash, moves, color, st0, after, told, false, depth + 1, next),
{
    reveal(tells_first);
    assert forall|oracle: Seq<bool>| #[trigger] follows(oracle, after) implies model::reports(
        s,
        hash,
        moves,
        1,
        color,
        st0,
        oracle,
    ) == told by {
        lemma_follows(oracle, after, log);
        if depth <= 16 {
            assert(oracle[log.len() as int] == after[log.len() as int]);
        }
        assert(told + Seq::<Report>::empty() =~= told);
    }
}

/// After a depth, its report is told; where it is broken off, nothing is.
proof fn lemma_tells_depth(
    s: rules::Cells,
    hash: u64,
    moves: Seq<Position>,
    color: Piece,
    st0: model::State,
    log: Seq<bool>,
    after: Seq<bool>,
    told: Seq<Report>,
    depth: nat,
    st: model::State,
    next: model::State,
    found: Result<Level, ()>,
)
    requires
        tells_first(s, hash, moves, color, st0, log, told, true, depth, st),
        st.asks.len() == log.len(),
        extends(after, log),
        depth <= 16,
        after.len() > log.len(),
        !after[log.len() as int],
        forall|oracle: Seq<bool>| #[trigger]
            follows(oracle, after) ==> ({
                let m = model::whole_depth(s, hash, moves, depth, color, model::asked(st, Ask::TimeUp), oracle);
                is_outcome(found, m.0) && m.1 == next
            }),
    ensures
        tells_first(s, hash, moves, color, st0, after, told + level_reports(found, depth), found is Ok, depth + 1, next),
{
    reveal(tells_first);
    assert forall|oracle: Seq<bool>| #[trigger] follows(oracle, after) implies model::reports(
        s,
        hash,
        moves,
        1,
        color,
        st0,
        oracle,
    ) == if found is Ok {
        told + level_reports(found, depth) + model::reports(s, hash, moves, depth + 1, color, next, oracle)
    } else {
        told + level_reports(found, depth)
    } by {
        lemma_follows(oracle, after, log);
        assert(oracle[log.len() as int] == after[log.len() as int]);
        let m = model::whole_depth(s, hash, moves, depth, color, model::asked(st, Ask::TimeUp), oracle);
        if let Some(d) = m.0 {
            let one = model::report_of(d, depth);
            let rest = model::reports(s, hash, moves, depth + 1, color, m.1, oracle);
            assert(level_reports(found, depth) =~= one);
            assert(told + (one + rest) =~= told + one + rest);
        } else {
            assert(told + Seq::<Report>::empty() =~= told);
        }
    }
}

/// What is told of a depth.
spec fn level_reports(found: Result<Level, ()>, depth: nat) -> Seq<Report> {
    match found {
        Ok(level) => match level.best {
            Some(b) => seq![
                Report { position: b.0, score: b.1 as int, reason: b.2@, depth, scores: level.scores@ },
            ],
            None => Seq::empty(),
        },
        Err(_) => Seq::empty(),
    }
}

/// Searches one depth after the other, and calls `on_depth` after each.
fn deepen<F>(
    snapshot: &GameSnapshot,
    moves: &Vec<Position>,
    tt: &mut TranspositionTable,
    memory: &mut Memory,
    limits: &Limits,
    on_depth: Option<F>,
) -> (best: (Position, i32, String)) where F: FnMut(Position, i32, &str, usize, &[(Position, i32)])
    requires
        in_step(*limits, *old(memory)),
        moves@.len() > 0,
        forall|k: int| 0 <= k < moves@.len() ==> rules::is_free(snapshot.board@, #[trigger] moves@[k]),
        table::scores_bounded(old(tt)@),
        on_depth is Some ==> forall|f: F, p: Position, v: i32, t: &str, d: usize, a: &[(Position, i32)]| #[trigger]
            call_requires(f, (p, v, t, d, a)),
    ensures
        in_step(*limits, *final(memory)),
        extends(final(memory).log@, old(memory).log@),
        forall|oracle: Seq<bool>| #[trigger]
            follows(oracle, final(memory).log@) ==> model::deepened(
                snapshot.board@,
                snapshot.board.hash,
                moves@,
                1,
                (
                    moves@[0],
                    super::value(snapshot.board@, snapshot.my_color, moves@[0]),
                    "greedy"@,
                ),
                snapshot.my_color,
                state_of(*old(tt), *old(memory)),
                oracle,
            ) == ((best.0, best.1 as int, best.2@), state_of(*final(tt), *final(memory))),
        on_depth is Some ==> forall|oracle: Seq<bool>| #[trigger]
            follows(oracle, final(memory).log@) ==> took_all::<F>(
                model::reports(
                    snapshot.board@,
                    snapshot.board.hash,
                    moves@,
                    1,
                    snapshot.my_color,
                    state_of(*old(tt), *old(memory)),
                    oracle,
                ),
            ),
        rules::is_free(snapshot.board@, best.0),
        table::scores_bounded(final(tt)@),
{
    let ghost tells = on_depth is Some;
    let ghost mut told: Seq<Report> = Seq::empty();
    let mut on_depth = on_depth;
    let ghost s = snapshot.board@;
    let ghost hash = snapshot.board.hash;
    let color = snapshot.my_color;
    let ghost log0 = memory.log@;
    let ghost st0 = state_of(*tt, *memory);
    let mut best: (Position, i32, String) = (
        moves[0],
        position_score(snapshot, moves[0]),
        "greedy".to_owned(),
    );
    let ghost seed: super::Choice = (best.0, best.1 as int, best.2@);
    let ghost mut choice = seed;
    assert(rules::is_free(s, moves@[0]));
    let mut depth: usize = 1;
    let mut running = true;
    proof {
        lemma_tells_nothing(s, hash, moves@, color, st0, log0);
    }
    while running && depth <= MAX_DEPTH
        invariant
            1 <= depth <= 17,
            s == snapshot.board@,
            hash == snapshot.board.hash,
            log0 == old(memory).log@,
            rules::is_free(s, best.0),
            choice == (best.0, best.1 as int, best.2@),
            in_step(*limits, *memory),
            extends(memory.log@, log0),
            table::scores_bounded(tt@),
            forall|k: int| 0 <= k < moves@.len() ==> rules::is_free(s, #[trigger] moves@[k]),
            on_depth is Some ==> forall|f: F, p: Position, v: i32, t: &str, d: usize, a: &[(Position, i32)]|
                #[trigger] call_requires(f, (p, v, t, d, a)),
            tells == on_depth is Some,
            tells ==> took_all::<F>(told),
            tells_first(
                s,
                hash,
                moves@,
                color,
                st0,
                memory.log@,
                told,
                running,
                depth as nat,
                state_of(*tt, *memory),
            ),
            forall|oracle: Seq<bool>| #[trigger]
                follows(oracle, memory.log@) ==> model::deepened(s, hash, moves@, 1, seed, color, st0, oracle)
                    == if running {
                    model::deepened(
                        s,
                        hash,
                        moves@,
                        depth as nat,
                        choice,
                        color,
                        state_of(*tt, *memory),
                        oracle,
                    )
                } else {
                    (choice, state_of(*tt, *memory))
                },
        decreases 17 - depth,
    {
        let ghost log1 = memory.log@;
        let ghost st1 = state_of(*tt, *memory);
        let up = memory.time_is_up(limits);
        let ghost log2 = memory.log@;
        proof {
            lemma_extends(log2, log1, log0);
            assert(log2[log1.len() as int] == up);
            assert forall|oracle: Seq<bool>| #[trigger] follows(oracle, log2) implies follows(oracle, log1)
                && oracle[log1.len() as int] == up by {
                lemma_follows(oracle, log2, log1);
                assert(oracle[log1.len() as int] == log2[log1.len() as int]);
            }
        }
        if up {
            running = false;
            proof {
                let next = state_of(*tt, *memory);
                lemma_tells_no_more(s, hash, moves@, color, st0, log1, log2, told, depth as nat, st1, next);
            }
        } else {
            let found = whole_depth(&snapshot.board, color, moves, depth, tt, memory, limits);
            proof {
                lemma_extends(memory.log@, log2, log0);
                assert forall|oracle: Seq<bool>| #[trigger] follows(oracle, memory.log@) implies follows(oracle, log2) by {
                    lemma_follows(oracle, memory.log@, log2);
                }
            }
            proof {
                assert(extends(memory.log@, log1)) by {
                    lemma_extends(memory.log@, log2, log1);
                }
                assert(memory.log@[log1.len() as int] == log2[log1.len() as int]);
                lemma_tells_depth(
                    s,
                    hash,
                    moves@,
                    color,
                    st0,
                    log1,
                    memory.log@,
                    told,
                    depth as nat,
                    st1,
                    state_of(*tt, *memory),
                    found,
                );
                told = told + level_reports(found, depth as nat);
            }
            match found {
                Ok(level) => {
                    if let Some((mv, score, reason)) = level.best {
                        if let Some(f) = on_depth {
                            on_depth = Some(tell(f, mv, score, reason.as_str(), depth, level.scores.as_slice()));
                        }
                        proof {
                            choice = (mv, score as int, reason@);
                            let k = choose|k: int| 0 <= k < moves@.len() && moves@[k] == mv;
                            assert(rules::is_free(s, moves@[k]));
                        }
                        best = (mv, score, reason);
                    }
                },
                Err(()) => {
                    running = false;
                },
            }
        }
        depth = depth + 1;
    }
    proof {
        if running {
            let next = state_of(*tt, *memory);
            lemma_tells_no_more(s, hash, moves@, color, st0, memory.log@, memory.log@, told, depth as nat, next, next);
        }
        reveal(tells_first);
    }
    best
}

/// Searches as deep as the time allows.
pub struct SearchStrategy {
    pub tt: TranspositionTable,
}

impl Default for SearchStrategy {
    fn default() -> (r: Self)
        ensures
            r.tt@ == table::empty_slots(),
    {
        SearchStrategy { tt: TranspositionTable::new() }
    }
}

/// The search of `color` on the position `s` from the table `slots`, until `deadline` comes or `cancel`
/// is set, may return `r`, leave the table `after` and tell of `reports`: there is an oracle with
/// which it does, and which answers all that the search asks as the clock and the flag do. A look
/// ahead for a forced win comes first, for 200 milliseconds, but not after `deadline`.
#[verifier::opaque]
pub open spec fn may_find(
    s: rules::Cells,
    hash: u64,
    color: Piece,
    slots: table::Slots,
    deadline: Instant,
    cancel: &AtomicBool,
    r: Option<(Position, i32, String)>,
    after: table::Slots,
    reports: Seq<Report>,
) -> bool {
    exists|oracle: Seq<bool>, early: Instant| #[trigger]
        in_time(model::searched(s, hash, color, slots, oracle), oracle, deadline, cancel, early) && is_search(
            model::searched(s, hash, color, slots, oracle),
            r,
            after,
        ) && reports == model::searched(s, hash, color, slots, oracle).reports
}

/// The oracle answers all that the search `m` asks as the clock and the flag do, and `early` is until
/// when the search looks ahead for a forced win before it begins.
pub open spec fn in_time(
    m: model::Searched,
    oracle: Seq<bool>,
    deadline: Instant,
    cancel: &AtomicBool,
    early: Instant,
) -> bool {
    clock::is_soon(200, deadline, early) && heard(m.asks, oracle, deadline, cancel, early)
}

/// `r` and `after` are what the model of the search computes.
pub open spec fn is_search(
    m: model::Searched,
    r: Option<(Position, i32, String)>,
    after: table::Slots,
) -> bool {
    super::is_choice(r, m.found) && after == m.slots
}

/// A search for four and a half seconds, with a table of its own, may return `r`.
pub open spec fn may_pick(s: rules::Cells, hash: u64, color: Piece, r: Option<(Position, i32, String)>) -> bool {
    exists|deadline: Instant, cancel: &AtomicBool, after: table::Slots, reports: Seq<Report>|
        clock::is_after(4_500, deadline) && clock::begins_unset(cancel) && #[trigger] may_find(
            s,
            hash,
            color,
            table::empty_slots(),
            deadline,
            cancel,
            r,
            after,
            reports,
        )
}

/// The search returns `r` and leaves the table `after` when the clock says `answers`, and after that
/// that the time is up; it asks no more than `n` times.
pub open spec fn finds_when_told(
    s: rules::Cells,
    hash: u64,
    color: Piece,
    slots: table::Slots,
    answers: Seq<bool>,
    n: nat,
    r: Option<(Position, i32, String)>,
    after: table::Slots,
) -> bool {
    forall|m: nat|
        n <= m ==> is_search(model::searched(s, hash, color, slots, #[trigger] said(answers, m)), r, after)
}

/// What is found with what the clock and the flag have said may be found.
proof fn lemma_may_find(
    s: rules::Cells,
    hash: u64,
    color: Piece,
    slots: table::Slots,
    deadline: Instant,
    cancel: &AtomicBool,
    r: Option<(Position, i32, String)>,
    after: table::Slots,
    memory: Memory,
)
    requires
        in_step((Limits::Clock { deadline, cancel }), memory),
        is_search(model::searched(s, hash, color, slots, memory.log@), r, after),
        model::searched(s, hash, color, slots, memory.log@).asks == memory.asks@,
    ensures
        may_find(
            s,
            hash,
            color,
            slots,
            deadline,
            cancel,
            r,
            after,
            model::searched(s, hash, color, slots, memory.log@).reports,
        ),
{
    reveal(may_find);
    let m = model::searched(s, hash, color, slots, memory.log@);
    assert(in_time(m, memory.log@, deadline, cancel, memory.early));
}

/// A forced win begins on a free cell.
proof fn lemma_forced_win_is_free(s: rules::Cells, color: Piece, max_depth: int)
    requires
        rules::is_cells(s),
        vcf::vcf_win(s, color, max_depth) is Some,
    ensures
        rules::is_free(s, vcf::vcf_win(s, color, max_depth)->0),
        rules::stones(s) < 324,
{
    let n = super::forced::law_vcf_finds_forced_wins(s, color, max_depth);
    rules::lemma_stones_bounds(s, 324);
    assert(s[rules::index(vcf::vcf_win(s, color, max_depth)->0)] is None);
}

/// With the oracle, a forced win of ours is played at once.
proof fn lemma_found_own(
    s: rules::Cells,
    hash: u64,
    color: Piece,
    slots: table::Slots,
    oracle: Seq<bool>,
    r: Option<(Position, i32, String)>,
)
    requires
        r matches Some(c) && model::timed_win(oracle[0], vcf::vcf_win(s, color, 40)) == Some(c.0) && c.1 == 999_999
            && c.2@ == "vcf forced win"@,
    ensures
        is_search(model::searched(s, hash, color, slots, oracle), r, slots),
        model::searched(s, hash, color, slots, oracle).asks == seq![model::look_ask(true, s, color, 40)],
        model::searched(s, hash, color, slots, oracle).reports == Seq::<Report>::empty(),
{
    reveal(model::searched);
}

/// With the oracle, there is no move on a full board.
proof fn lemma_found_none(s: rules::Cells, hash: u64, color: Piece, slots: table::Slots, oracle: Seq<bool>)
    requires
        rules::candidates(s).len() == 0,
        model::timed_win(oracle[0], vcf::vcf_win(s, color, 40)) is None,
    ensures
        is_search(model::searched(s, hash, color, slots, oracle), None, slots),
        model::searched(s, hash, color, slots, oracle).asks == model::early_asks(s, color),
        model::searched(s, hash, color, slots, oracle).reports == Seq::<Report>::empty(),
{
    reveal(model::searched);
}

/// With the oracle, the search returns what deepening does.
proof fn lemma_found_deep(
    s: rules::Cells,
    hash: u64,
    color: Piece,
    slots: table::Slots,
    oracle: Seq<bool>,
    block: Option<Position>,
    after: model::State,
    best: (Position, i32, String),
)
    requires
        rules::candidates(s).len() > 0,
        model::timed_win(oracle[0], vcf::vcf_win(s, color, 40)) is None,
        block == model::timed_win(oracle[1], vcf::vcf_win(s, rules::other(color), 40)),
        model::deepened(
            s,
            hash,
            model::root_candidates(s, color, block),
            1,
            (
                model::root_candidates(s, color, block)[0],
                super::value(s, color, model::root_candidates(s, color, block)[0]),
                "greedy"@,
            ),
            color,
            model::fresh(slots, model::early_asks(s, color)),
            oracle,
        ) == ((best.0, best.1 as int, best.2@), after),
    ensures
        is_search(model::searched(s, hash, color, slots, oracle), Some(best), after.slots),
        model::searched(s, hash, color, slots, oracle).asks == after.asks,
        model::searched(s, hash, color, slots, oracle).reports == model::reports(
            s,
            hash,
            model::root_candidates(s, color, block),
            1,
            color,
            model::fresh(slots, model::early_asks(s, color)),
            oracle,
        ),
{
    reveal(model::searched);
}

/// With each oracle that goes on from what the clock has said, the search returns `r`, leaves the table
/// `after`, and asks what the memory has asked.
spec fn is_search_so_far(
    s: rules::Cells,
    hash: u64,
    color: Piece,
    slots: table::Slots,
    memory: Memory,
    r: Option<(Position, i32, String)>,
    after: table::Slots,
) -> bool {
    forall|oracle: Seq<bool>| #[trigger]
        follows(oracle, memory.log@) ==> is_search(model::searched(s, hash, color, slots, oracle), r, after)
            && model::searched(s, hash, color, slots, oracle).asks == memory.asks@
}

/// With each oracle that goes on from what the clock has said, a callback of the type `F` has taken all
/// that the search tells.
spec fn tells_so_far<F: FnMut(Position, i32, &str, usize, &[(Position, i32)])>(
    s: rules::Cells,
    hash: u64,
    color: Piece,
    slots: table::Slots,
    memory: Memory,
) -> bool {
    forall|oracle: Seq<bool>| #[trigger]
        follows(oracle, memory.log@) ==> took_all::<F>(model::searched(s, hash, color, slots, oracle).reports)
}

/// Searches where no forced win of ours was found; the memory knows how the looks for one went.
fn search_below<F>(
    tt: &mut TranspositionTable,
    snapshot: &GameSnapshot,
    block: Option<Position>,
    memory: &mut Memory,
    limits: &Limits,
    on_depth: Option<F>,
) -> (r: Option<(Position, i32, String)>) where F: FnMut(Position, i32, &str, usize, &[(Position, i32)])
    requires
        in_step(*limits, *old(memory)),
        table::scores_bounded(old(tt)@),
        on_depth is Some ==> forall|f: F, p: Position, v: i32, t: &str, d: usize, a: &[(Position, i32)]| #[trigger]
            call_requires(f, (p, v, t, d, a)),
        old(memory).log@.len() == 2,
        state_of(*old(tt), *old(memory)) == model::fresh(
            old(tt)@,
            model::early_asks(snapshot.board@, snapshot.my_color),
        ),
        model::timed_win(old(memory).log@[0], vcf::vcf_win(snapshot.board@, snapshot.my_color, 40)) is None,
        block == model::timed_win(
            old(memory).log@[1],
            vcf::vcf_win(snapshot.board@, rules::other(snapshot.my_color), 40),
        ),
        block matches Some(p) ==> rules::is_free(snapshot.board@, p),
    ensures
        in_step(*limits, *final(memory)),
        is_search_so_far(
            snapshot.board@,
            snapshot.board.hash,
            snapshot.my_color,
            old(tt)@,
            *final(memory),
            r,
            final(tt)@,
        ),
        on_depth is Some ==> tells_so_far::<F>(
            snapshot.board@,
            snapshot.board.hash,
            snapshot.my_color,
            old(tt)@,
            *final(memory),
        ),
        r is None <==> rules::stones(snapshot.board@) == 324,
        r matches Some(c) ==> rules::is_free(snapshot.board@, c.0),
        table::scores_bounded(final(tt)@),
{
    let ghost s = snapshot.board@;
    let ghost hash = snapshot.board.hash;
    let ghost slots = tt@;
    let ghost log = memory.log@;
    let color = snapshot.my_color;
    proof {
        crate::laws::law_candidates_until_full(s);
    }
    let moves = root_candidates(&snapshot.board, color, block);
    if snapshot.board.move_count() == BOARD_SIZE * BOARD_SIZE {
        proof {
            assert forall|oracle: Seq<bool>| #[trigger] follows(oracle, memory.log@) implies is_search(
                model::searched(s, hash, color, slots, oracle),
                None,
                slots,
            ) && model::searched(s, hash, color, slots, oracle).asks == memory.asks@ && model::searched(
                s,
                hash,
                color,
                slots,
                oracle,
            ).reports == Seq::<Report>::empty() by {
                assert(oracle[0] == log[0]);
                lemma_found_none(s, hash, color, slots, oracle);
            }
        }
        return None;
    }
    let best = deepen(snapshot, &moves, tt, memory, limits, on_depth);
    proof {
        assert forall|oracle: Seq<bool>| #[trigger] follows(oracle, memory.log@) implies is_search(
            model::searched(s, hash, color, slots, oracle),
            Some(best),
            tt@,
        ) && model::searched(s, hash, color, slots, oracle).asks == memory.asks@ && model::searched(
            s,
            hash,
            color,
            slots,
            oracle,
        ).reports == model::reports(
            s,
            hash,
            moves@,
            1,
            color,
            model::fresh(slots, model::early_asks(s, color)),
            oracle,
        ) by {
            lemma_follows(oracle, memory.log@, log);
            assert(oracle[0] == log[0] && oracle[1] == log[1]);
            lemma_found_deep(s, hash, color, slots, oracle, block, state_of(*tt, *memory), best);
        }
    }
    Some(best)
}

impl SearchStrategy {
    /// Searches until `deadline` comes or `cancel` is set, and calls `on_depth` after each depth
    /// with the best move, its score and rating, the depth, and the scores of all moves of the
    /// root. The table must hold scores within a quarter of the range of `i32` only, which every
    /// search keeps so.
    pub fn search_timed<F>(
        &mut self,
        snapshot: &GameSnapshot,
        deadline: Instant,
        cancel: &AtomicBool,
        on_depth: F,
    ) -> (r: Option<(Position, i32, String)>) where F: FnMut(Position, i32, &str, usize, &[(Position, i32)])
        requires
            table::scores_bounded(old(self).tt@),
            forall|f: F, p: Position, v: i32, t: &str, d: usize, a: &[(Position, i32)]| #[trigger]
                call_requires(f, (p, v, t, d, a)),
        ensures
            exists|reports: Seq<Report>| #[trigger]
                may_find(
                    snapshot.board@,
                    snapshot.board.hash,
                    snapshot.my_color,
                    old(self).tt@,
                    deadline,
                    cancel,
                    r,
                    final(self).tt@,
                    reports,
                ) && took_all::<F>(reports),
            r is None <==> rules::stones(snapshot.board@) == 324,
            r matches Some(c) ==> rules::is_free(snapshot.board@, c.0),
            table::scores_bounded(final(self).tt@),
    {
        let limits = Limits::Clock { deadline, cancel };
        let mut memory = Memory::new(clock::soon(VCF_PRE_BUDGET_MS, deadline));
        let ghost slots = self.tt@;
        proof {
            reveal(heard);
        }
        let r = self.search(snapshot, &limits, &mut memory, Some(on_depth));
        proof {
            assert(follows(memory.log@, memory.log@));
            lemma_may_find(
                snapshot.board@,
                snapshot.board.hash,
                snapshot.my_color,
                slots,
                deadline,
                cancel,
                r,
                self.tt@,
                memory,
            );
        }
        r
    }

    /// Searches with a clock that says what `answers` says, and after that that the time is up. It is
    /// asked by each look for consecutive fours, whether it is cut short, and by each depth, each
    /// move of the root and every 512th node, whether the time is up.
    pub fn search_told(&mut self, snapshot: &GameSnapshot, answers: &Vec<bool>) -> (r: Option<(Position, i32, String)>)
        requires
            table::scores_bounded(old(self).tt@),
        ensures
            exists|n: nat| #[trigger]
                finds_when_told(
                    snapshot.board@,
                    snapshot.board.hash,
                    snapshot.my_color,
                    old(self).tt@,
                    answers@,
                    n,
                    r,
                    final(self).tt@,
                ),
            r is None <==> rules::stones(snapshot.board@) == 324,
            r matches Some(c) ==> rules::is_free(snapshot.board@, c.0),
            table::scores_bounded(final(self).tt@),
    {
        let limits = Limits::Told(answers);
        let mut memory = Memory::new(clock::after(0));
        let ghost slots = self.tt@;
        assert(memory.log@ =~= said(answers@, 0));
        let ignore = |_best: Position, _score: i32, _reason: &str, _depth: usize, _scores: &[(Position, i32)]| {};
        let mut nobody = Some(ignore);
        nobody = None;
        let r = self.search(snapshot, &limits, &mut memory, nobody);
        proof {
            let n = memory.log@.len();
            assert forall|m: nat| n <= m implies is_search(
                model::searched(
                    snapshot.board@,
                    snapshot.board.hash,
                    snapshot.my_color,
                    slots,
                    #[trigger] said(answers@, m),
                ),
                r,
                self.tt@,
            ) by {
                assert(follows(said(answers@, m), memory.log@));
            }
            assert(finds_when_told(
                snapshot.board@,
                snapshot.board.hash,
                snapshot.my_color,
                slots,
                answers@,
                n,
                r,
                self.tt@,
            ));
        }
        r
    }

    /// Searches, and tells `on_depth`, if there is one, of each depth.
    fn search<F>(
        &mut self,
        snapshot: &GameSnapshot,
        limits: &Limits,
        memory: &mut Memory,
        on_depth: Option<F>,
    ) -> (r: Option<(Position, i32, String)>) where F: FnMut(Position, i32, &str, usize, &[(Position, i32)])
        requires
            in_step(*limits, *old(memory)),
            state_of(old(self).tt, *old(memory)) == model::fresh(old(self).tt@, Seq::empty()),
            table::scores_bounded(old(self).tt@),
            on_depth is Some ==> forall|f: F, p: Position, v: i32, t: &str, d: usize, a: &[(Position, i32)]|
                #[trigger] call_requires(f, (p, v, t, d, a)),
        ensures
            in_step(*limits, *final(memory)),
            is_search_so_far(
                snapshot.board@,
                snapshot.board.hash,
                snapshot.my_color,
                old(self).tt@,
                *final(memory),
                r,
                final(self).tt@,
            ),
            on_depth is Some ==> tells_so_far::<F>(
                snapshot.board@,
                snapshot.board.hash,
                snapshot.my_color,
                old(self).tt@,
                *final(memory),
            ),
            r is None <==> rules::stones(snapshot.board@) == 324,
            r matches Some(c) ==> rules::is_free(snapshot.board@, c.0),
            table::scores_bounded(final(self).tt@),
    {
        let ghost s = snapshot.board@;
        let ghost hash = snapshot.board.hash;
        let color = snapshot.my_color;
        let opponent = color.opponent();
        let ghost slots = self.tt@;
        let early = memory.early;
        let mut board = snapshot.board.clone();
        let own = memory.look(limits, &mut board, color, VCF_MAX_DEPTH, early, Ghost(true));
        let ghost log1 = memory.log@;
        if let Some(mv) = own {
            let r = Some((mv, WIN_SCORE - 1, "vcf forced win".to_owned()));
            proof {
                lemma_forced_win_is_free(s, color, 40);
                assert forall|oracle: Seq<bool>| #[trigger] follows(oracle, memory.log@) implies is_search(
                    model::searched(s, hash, color, slots, oracle),
                    r,
                    slots,
                ) && model::searched(s, hash, color, slots, oracle).asks == memory.asks@ && model::searched(
                    s,
                    hash,
                    color,
                    slots,
                    oracle,
                ).reports == Seq::<Report>::empty() by {
                    assert(oracle[0] == log1[0]);
                    assert(memory.asks@ =~= seq![model::look_ask(true, s, color, 40)]);
                    lemma_found_own(s, hash, color, slots, oracle, r);
                }
            }
            return r;
        }
        // The block of a forced win of the opponent's is tried first, but a counter-attack or a
        // better block may still be found.

        let block = memory.look(limits, &mut board, opponent, VCF_MAX_DEPTH, early, Ghost(true));
        proof {
            assert(memory.log@[0] == log1[0]);
            if block is Some {
                lemma_forced_win_is_free(s, opponent, 40);
            }
            assert(memory.asks@ =~= model::early_asks(s, color));
            assert(state_of(self.tt, *memory) =~= model::fresh(slots, model::early_asks(s, color)));
        }
        search_below(&mut self.tt, snapshot, block, memory, limits, on_depth)
    }

    /// Searches for four and a half seconds with a table of its own.
    pub fn pick(snapshot: &GameSnapshot) -> (r: Option<(Position, i32, String)>)
        ensures
            may_pick(snapshot.board@, snapshot.board.hash, snapshot.my_color, r),
            r is None <==> rules::stones(snapshot.board@) == 324,
            r matches Some(c) ==> rules::is_free(snapshot.board@, c.0),
    {
        let deadline = clock::after(CHOICE_BUDGET_MS);
        let cancel = clock::unset();
        let limits = Limits::Clock { deadline, cancel: &cancel };
        let mut memory = Memory::new(clock::soon(VCF_PRE_BUDGET_MS, deadline));
        let mut strategy = SearchStrategy::default();
        proof {
            table::law_empty_table_finds_nothing(0);
            reveal(heard);
        }
        let ignore = |_best: Position, _score: i32, _reason: &str, _depth: usize, _scores: &[(Position, i32)]| {};
        let mut nobody = Some(ignore);
        nobody = None;
        let r = strategy.search(snapshot, &limits, &mut memory, nobody);
        proof {
            assert(follows(memory.log@, memory.log@));
            lemma_may_find(
                snapshot.board@,
                snapshot.board.hash,
                snapshot.my_color,
                table::empty_slots(),
                deadline,
                &cancel,
                r,
                strategy.tt@,
                memory,
            );
        }
        r
    }
}

/// For how many milliseconds a single choice is searched.
const CHOICE_BUDGET_MS: u64 = 4_500;

impl Strategy for SearchStrategy {
    fn name(&self) -> (r: &'static str)
        ensures
            r@ == "search"@,
    {
        "search"
    }

    fn select_move(&self, snapshot: &GameSnapshot) -> (r: Option<Position>)
        ensures
            exists|found: Option<(Position, i32, String)>| #[trigger]
                may_pick(snapshot.board@, snapshot.board.hash, snapshot.my_color, found) && r == (match found {
                    Some(c) => Some(c.0),
                    None => None,
                }),
            r is None <==> rules::stones(snapshot.board@) == 324,
            r matches Some(p) ==> rules::is_free(snapshot.board@, p),
    {
        match Self::pick(snapshot) {
            Some((position, _, _)) => Some(position),
            None => None,
        }
    }
}

/// The plan of the search.
pub fn plan(snapshot: &GameSnapshot) -> (r: Option<DecisionPlan>)
    ensures
        r is None <==> rules::stones(snapshot.board@) == 324,
        r matches Some(plan) ==> plan.strategy == StrategyKind::Search && rules::is_free(
            snapshot.board@,
            plan.position,
        ) && may_pick(
            snapshot.board@,
            snapshot.board.hash,
            snapshot.my_color,
            Some((plan.position, plan.score, plan.reason)),
        ),
{
    build_plan(StrategyKind::Search, SearchStrategy::pick(snapshot))
}

} // verus!
