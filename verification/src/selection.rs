//! Choosing a move within the time of a turn, and thinking ahead in the opponent's.
use std::sync::atomic::AtomicBool;
use std::time::Instant;

use vstd::prelude::*;

use crate::board::{Board, Piece, Position};
use crate::config::StrategyChoice;
use crate::engine::DecisionPlan;
use crate::game::GameSnapshot;
use crate::rules;
use crate::strategy;
use crate::strategy::pattern;
use crate::strategy::search;
use crate::strategy::search_model::Report;
use crate::strategy::tactical;
use crate::strategy::vcf;
use crate::strategy::vct;
use crate::strategy::{
    PatternStrategy, SearchStrategy, Strategy, StrategyKind, TacticalStrategy, VcfStrategy, VctStrategy,
};
use crate::transposition_table as table;

verus! {

broadcast use crate::board::board_has_every_cell;

/// What a turn keeps back of its time, in milliseconds.
pub const SAFETY_BUFFER_MS: u64 = 300;

/// `a` less `b`, but not below 0.
pub open spec fn less(a: int, b: int) -> int {
    if a < b {
        0
    } else {
        a - b
    }
}

/// For how many milliseconds a turn of `move_time_ms` is searched, of which `elapsed_ms` are gone:
/// for what is left but the safety buffer, and for 1 at least.
pub open spec fn budget(move_time_ms: int, elapsed_ms: int) -> int {
    let rest = less(less(move_time_ms, elapsed_ms), 300);
    if rest < 1 {
        1
    } else {
        rest
    }
}

fn subtract(a: u64, b: u64) -> (r: u64)
    ensures
        r == less(a as int, b as int),
{
    if a < b {
        0
    } else {
        a - b
    }
}

/// For how many milliseconds a turn is searched.
pub fn search_budget(move_time_ms: u64, elapsed_ms: u64) -> (r: u64)
    ensures
        r == budget(move_time_ms as int, elapsed_ms as int),
{
    let rest: u64 = subtract(subtract(move_time_ms, elapsed_ms), SAFETY_BUFFER_MS);
    if rest < 1 {
        1
    } else {
        rest
    }
}

/// A search ends before the turn does, with the safety buffer to spare, unless there is no more
/// time than that. It never gets no time at all.
pub proof fn law_budget_keeps_the_buffer(move_time_ms: int, elapsed_ms: int)
    requires
        0 <= elapsed_ms,
    ensures
        budget(move_time_ms, elapsed_ms) >= 1,
        move_time_ms - elapsed_ms > 300 ==> elapsed_ms + budget(move_time_ms, elapsed_ms) + 300 == move_time_ms,
        move_time_ms - elapsed_ms <= 300 ==> budget(move_time_ms, elapsed_ms) == 1,
{
}

/// For how many milliseconds to think ahead: nine tenths of a turn.
pub fn ponder_budget(move_time_ms: u64) -> (r: u64)
    requires
        move_time_ms <= u64::MAX / 9,
    ensures
        r == move_time_ms * 9 / 10,
{
    move_time_ms * 9 / 10
}

/// The cell of a choice, with its score for us, and another reason.
pub open spec fn rescored(
    s: rules::Cells,
    color: Piece,
    c: Option<strategy::Choice>,
    reason: Seq<char>,
) -> Option<strategy::Choice> {
    match c {
        Some(x) => Some((x.0, rules::score(s, x.0, color), reason)),
        None => None,
    }
}

/// A cell as a choice, with its score for us.
pub open spec fn chosen(s: rules::Cells, color: Piece, p: Position, reason: Seq<char>) -> Option<strategy::Choice> {
    Some((p, rules::score(s, p, color), reason))
}

/// What a plan of the search came from.
pub open spec fn found_of(r: Option<DecisionPlan>) -> Option<(Position, i32, String)> {
    match r {
        Some(plan) => Some((plan.position, plan.score, plan.reason)),
        None => None,
    }
}

/// `r` may be what the search plans until `deadline` comes or `cancel` is set, `after` the table that
/// it leaves, and `reports` what it tells of the depths.
pub open spec fn is_search_plan(
    s: rules::Cells,
    hash: u64,
    color: Piece,
    before: table::Slots,
    deadline: Instant,
    cancel: &AtomicBool,
    r: Option<DecisionPlan>,
    after: table::Slots,
    reports: Seq<Report>,
) -> bool {
    &&& r matches Some(plan) ==> plan.strategy == StrategyKind::Search
    &&& search::may_find(s, hash, color, before, deadline, cancel, found_of(r), after, reports)
}

/// Nothing was searched: the table is as it was, and there is nothing to tell.
pub open spec fn unsearched(before: table::Slots, after: table::Slots, reports: Seq<Report>) -> bool {
    after == before && reports == Seq::<Report>::empty()
}

/// `r` is a plan of the strategy that looks for forced wins, or else the greedy one.
pub open spec fn is_forced_or_greedy(
    s: rules::Cells,
    color: Piece,
    kind: StrategyKind,
    forced: Option<strategy::Choice>,
    reason: Seq<char>,
    r: Option<DecisionPlan>,
) -> bool {
    if forced is Some {
        strategy::is_plan(r, kind, forced)
    } else {
        strategy::is_plan(r, StrategyKind::Pattern, rescored(s, color, pattern::pattern_choice(s, color), reason))
    }
}

/// `r` may be the plan of the adaptive strategy: a win, else a block of a win, else the greedy move
/// in the opening, else the block of an open four, else what the search finds.
pub open spec fn is_adaptive(
    s: rules::Cells,
    hash: u64,
    color: Piece,
    before: table::Slots,
    deadline: Instant,
    cancel: &AtomicBool,
    r: Option<DecisionPlan>,
    after: table::Slots,
    reports: Seq<Report>,
) -> bool {
    let opponent = rules::other(color);
    if rules::has_winning_move(s, color) {
        unsearched(before, after, reports) && strategy::is_plan(
            r,
            StrategyKind::Tactical,
            chosen(s, color, rules::winning_moves(s, color)[0], "win"@),
        )
    } else if rules::has_winning_move(s, opponent) {
        unsearched(before, after, reports) && strategy::is_plan(
            r,
            StrategyKind::Tactical,
            chosen(s, color, rules::winning_moves(s, opponent)[0], "block"@),
        )
    } else if rules::stones(s) < 4 {
        unsearched(before, after, reports) && strategy::is_plan(
            r,
            StrategyKind::Pattern,
            rescored(s, color, pattern::pattern_choice(s, color), Seq::empty()),
        )
    } else if tactical::open_four_block(s, color) is Some {
        unsearched(before, after, reports) && strategy::is_plan(
            r,
            StrategyKind::Tactical,
            chosen(s, color, tactical::open_four_block(s, color)->0, "block open four"@),
        )
    } else {
        is_search_plan(s, hash, color, before, deadline, cancel, r, after, reports)
    }
}

/// `r` may be the plan of a strategy, ready by `deadline` or when `cancel` is set, `after` the table that
/// it leaves, and `reports` what it tells of the depths.
pub open spec fn is_selected(
    s: rules::Cells,
    hash: u64,
    color: Piece,
    choice: StrategyChoice,
    before: table::Slots,
    deadline: Instant,
    cancel: &AtomicBool,
    r: Option<DecisionPlan>,
    after: table::Slots,
    reports: Seq<Report>,
) -> bool {
    match choice {
        StrategyChoice::Tactical => unsearched(before, after, reports) && strategy::is_plan(
            r,
            StrategyKind::Tactical,
            rescored(s, color, tactical::tactical_choice(s, color), Seq::empty()),
        ),
        StrategyChoice::Pattern => unsearched(before, after, reports) && strategy::is_plan(
            r,
            StrategyKind::Pattern,
            rescored(s, color, pattern::pattern_choice(s, color), Seq::empty()),
        ),
        StrategyChoice::Vcf => unsearched(before, after, reports) && is_forced_or_greedy(
            s,
            color,
            StrategyKind::Vcf,
            vcf::vcf_choice(s, color),
            "vcf-fallback"@,
            r,
        ),
        StrategyChoice::Vct => unsearched(before, after, reports) && is_forced_or_greedy(
            s,
            color,
            StrategyKind::Vct,
            vct::vct_choice(s, color),
            "vct-fallback"@,
            r,
        ),
        StrategyChoice::Search => is_search_plan(s, hash, color, before, deadline, cancel, r, after, reports),
        StrategyChoice::Adaptive => is_adaptive(s, hash, color, before, deadline, cancel, r, after, reports),
    }
}

/// A greedy move is a free cell, and there is one until the board is full.
proof fn lemma_greedy_is_free(s: rules::Cells, color: Piece)
    requires
        rules::is_cells(s),
    ensures
        pattern::pattern_choice(s, color) is None <==> rules::stones(s) == 324,
        pattern::pattern_choice(s, color) matches Some(c) ==> rules::is_free(s, c.0),
{
    let candidates = rules::candidates(s);
    let ranked = crate::ranking::ranked(candidates, strategy::by_worth(s, color));
    crate::laws::law_candidates(s);
    crate::laws::law_candidates_until_full(s);
    crate::ranking::lemma_ranked(candidates, strategy::by_worth(s, color));
    if ranked.len() > 0 {
        assert(ranked.contains(ranked[0]));
        assert(candidates.contains(ranked[0]));
    }
}

/// Where there is a free cell, the board is not full.
proof fn lemma_room_left(s: rules::Cells, p: Position)
    requires
        rules::is_cells(s),
        rules::is_free(s, p),
    ensures
        rules::stones(s) < 324,
{
    rules::lemma_stones_bounds(s, 324);
    assert(s[rules::index(p)] is None);
}

/// What looks for consecutive fours or threats chooses free cells.
proof fn lemma_forced_is_free(s: rules::Cells, color: Piece)
    requires
        rules::is_cells(s),
    ensures
        vcf::vcf_choice(s, color) matches Some(c) ==> rules::is_free(s, c.0) && rules::stones(s) < 324,
        vct::vct_choice(s, color) matches Some(c) ==> rules::is_free(s, c.0) && rules::stones(s) < 324,
{
    let opponent = rules::other(color);
    if vcf::vcf_win(s, color, 40) is Some {
        let n = strategy::forced::law_vcf_finds_forced_wins(s, color, 40);
    } else if vcf::vcf_win(s, opponent, 40) is Some {
        let n = strategy::forced::law_vcf_finds_forced_wins(s, opponent, 40);
    }
    if vcf::vcf_choice(s, color) is Some {
        lemma_room_left(s, (vcf::vcf_choice(s, color)->0).0);
    }
    lemma_vct_is_free(s, color);
}

/// The first move of a win by threats is free.
proof fn lemma_vct_is_free(s: rules::Cells, color: Piece)
    requires
        rules::is_cells(s),
    ensures
        vct::vct_choice(s, color) matches Some(c) ==> rules::is_free(s, c.0) && rules::stones(s) < 324,
{
    let opponent = rules::other(color);
    if vct::vct_win(s, color, vct::VCT_MAX_DEPTH as int) is Some {
        let n = strategy::forced::law_vct_finds_forced_wins(s, color, vct::VCT_MAX_DEPTH as int);
    } else if vct::vct_win(s, opponent, vct::VCT_MAX_DEPTH as int) is Some {
        let n = strategy::forced::law_vct_finds_forced_wins(s, opponent, vct::VCT_MAX_DEPTH as int);
    }
    if vct::vct_choice(s, color) is Some {
        lemma_room_left(s, (vct::vct_choice(s, color)->0).0);
    }
}

/// The greedy move, under another reason.
fn greedy(snapshot: &GameSnapshot, reason: String) -> (r: Option<DecisionPlan>)
    ensures
        strategy::is_plan(
            r,
            StrategyKind::Pattern,
            rescored(
                snapshot.board@,
                snapshot.my_color,
                pattern::pattern_choice(snapshot.board@, snapshot.my_color),
                reason@,
            ),
        ),
{
    match PatternStrategy.select_move(snapshot) {
        Some(position) => {
            let score = snapshot.board.score_move(position, snapshot.my_color);
            Some(DecisionPlan { strategy: StrategyKind::Pattern, position, score, reason })
        },
        None => None,
    }
}

/// The plan for a cell, with its score for us.
fn plan_at(snapshot: &GameSnapshot, position: Position, reason: &str) -> (r: Option<DecisionPlan>)
    ensures
        strategy::is_plan(
            r,
            StrategyKind::Tactical,
            chosen(snapshot.board@, snapshot.my_color, position, reason@),
        ),
{
    let score = snapshot.board.score_move(position, snapshot.my_color);
    Some(DecisionPlan { strategy: StrategyKind::Tactical, position, score, reason: reason.to_owned() })
}

/// A plan that needs no search, or the advice to search.
#[derive(Debug, PartialEq, Eq)]
pub enum AtOnce {
    Plan(Option<DecisionPlan>),
    Search,
}

/// The adaptive strategy does not search in this position.
pub open spec fn needs_no_search(s: rules::Cells, color: Piece) -> bool {
    rules::has_winning_move(s, color) || rules::has_winning_move(s, rules::other(color)) || rules::stones(s) < 4
        || tactical::open_four_block(s, color) is Some
}

/// The strategy searches in this position.
pub open spec fn searches(s: rules::Cells, color: Piece, choice: StrategyChoice) -> bool {
    choice == StrategyChoice::Search || choice == StrategyChoice::Adaptive && !needs_no_search(s, color)
}

fn reply_at_once(snapshot: &GameSnapshot) -> (r: AtOnce)
    ensures
        match r {
            AtOnce::Plan(plan) => needs_no_search(snapshot.board@, snapshot.my_color) && (forall|
                hash: u64,
                slots: table::Slots,
                deadline: Instant,
                cancel: &AtomicBool,
            | #[trigger]
                is_adaptive(
                    snapshot.board@,
                    hash,
                    snapshot.my_color,
                    slots,
                    deadline,
                    cancel,
                    plan,
                    slots,
                    Seq::empty(),
                )) && plan is Some
                && rules::is_free(snapshot.board@, plan->0.position) && rules::stones(snapshot.board@) < 324,
            AtOnce::Search => !needs_no_search(snapshot.board@, snapshot.my_color),
        },
{
    let ghost s = snapshot.board@;
    let ghost color = snapshot.my_color;
    let opponent = snapshot.my_color.opponent();
    proof {
        lemma_greedy_is_free(s, color);
        crate::laws::law_winning_moves_are_all(s, color);
        crate::laws::law_winning_moves_are_all(s, opponent);
    }
    if let Some(position) = snapshot.board.first_winning_move(snapshot.my_color) {
        assert(rules::would_win(s, position, color));
        proof {
            lemma_room_left(s, position);
        }
        return AtOnce::Plan(plan_at(snapshot, position, "win"));
    }
    if let Some(position) = snapshot.board.first_winning_move(opponent) {
        assert(rules::would_win(s, position, opponent));
        proof {
            lemma_room_left(s, position);
        }
        return AtOnce::Plan(plan_at(snapshot, position, "block"));
    }
    if snapshot.board.move_count() < 4 {
        return AtOnce::Plan(greedy(snapshot, String::new()));
    }
    if let Some(position) = tactical::find_open_four_block(snapshot) {
        proof {
            tactical::lemma_block_is_free(s, color);
            lemma_room_left(s, position);
        }
        return AtOnce::Plan(plan_at(snapshot, position, "block open four"));
    }
    AtOnce::Search
}

/// The plan of a strategy where it needs no search. On a board that is not full there is one, and it
/// is for a free cell.
pub fn select_at_once(snapshot: &GameSnapshot, strategy: StrategyChoice) -> (r: AtOnce)
    ensures
        match r {
            AtOnce::Plan(plan) => !searches(snapshot.board@, snapshot.my_color, strategy) && (forall|
                hash: u64,
                slots: table::Slots,
                deadline: Instant,
                cancel: &AtomicBool,
            | #[trigger]
                is_selected(
                    snapshot.board@,
                    hash,
                    snapshot.my_color,
                    strategy,
                    slots,
                    deadline,
                    cancel,
                    plan,
                    slots,
                    Seq::empty(),
                )) && (plan is None
                <==> rules::stones(snapshot.board@) == 324) && (plan is Some ==> rules::is_free(
                snapshot.board@,
                plan->0.position,
            )),
            AtOnce::Search => searches(snapshot.board@, snapshot.my_color, strategy),
        },
{
    let ghost s = snapshot.board@;
    let ghost color = snapshot.my_color;
    proof {
        tactical::law_tactical_plays_a_free_cell(s, color);
        lemma_greedy_is_free(s, color);
        lemma_forced_is_free(s, color);
    }
    match strategy {
        StrategyChoice::Tactical => match TacticalStrategy.select_move(snapshot) {
            Some(position) => {
                let score = snapshot.board.score_move(position, snapshot.my_color);
                let reason = String::new();
                AtOnce::Plan(Some(DecisionPlan { strategy: StrategyKind::Tactical, position, score, reason }))
            },
            None => AtOnce::Plan(None),
        },
        StrategyChoice::Pattern => AtOnce::Plan(greedy(snapshot, String::new())),
        StrategyChoice::Vcf => match VcfStrategy::pick(snapshot) {
            Some(c) => AtOnce::Plan(strategy::build_plan(StrategyKind::Vcf, Some(c))),
            None => AtOnce::Plan(greedy(snapshot, "vcf-fallback".to_owned())),
        },
        StrategyChoice::Vct => match VctStrategy::pick(snapshot) {
            Some(c) => AtOnce::Plan(strategy::build_plan(StrategyKind::Vct, Some(c))),
            None => AtOnce::Plan(greedy(snapshot, "vct-fallback".to_owned())),
        },
        StrategyChoice::Search => AtOnce::Search,
        StrategyChoice::Adaptive => reply_at_once(snapshot),
    }
}

/// The plan of a strategy, which is to be ready by `deadline`, or when `cancel` is set. The search
/// tells `on_depth` of each depth, and keeps what it learns in `searcher`. On a board that is not
/// full there is a plan, and it is for a free cell.
pub fn timed_select<F>(
    snapshot: &GameSnapshot,
    strategy: StrategyChoice,
    deadline: Instant,
    cancel: &AtomicBool,
    searcher: &mut SearchStrategy,
    on_depth: F,
) -> (r: Option<DecisionPlan>) where F: FnMut(Position, i32, &str, usize, &[(Position, i32)])
    requires
        table::scores_bounded(old(searcher).tt@),
        forall|f: F, p: Position, v: i32, t: &str, d: usize, a: &[(Position, i32)]| #[trigger]
            call_requires(f, (p, v, t, d, a)),
    ensures
        exists|reports: Seq<Report>| #[trigger]
            is_selected(
                snapshot.board@,
                snapshot.board.hash,
                snapshot.my_color,
                strategy,
                old(searcher).tt@,
                deadline,
                cancel,
                r,
                final(searcher).tt@,
                reports,
            ) && search::took_all::<F>(reports),
        r is None <==> rules::stones(snapshot.board@) == 324,
        r matches Some(plan) ==> rules::is_free(snapshot.board@, plan.position),
        table::scores_bounded(final(searcher).tt@),
{
    match select_at_once(snapshot, strategy) {
        AtOnce::Plan(plan) => {
            assert(is_selected(
                snapshot.board@,
                snapshot.board.hash,
                snapshot.my_color,
                strategy,
                searcher.tt@,
                deadline,
                cancel,
                plan,
                searcher.tt@,
                Seq::empty(),
            ));
            plan
        },
        AtOnce::Search => {
            let found = searcher.search_timed(snapshot, deadline, cancel, on_depth);
            let ghost reports = choose|reports: Seq<Report>| #[trigger]
                search::may_find(
                    snapshot.board@,
                    snapshot.board.hash,
                    snapshot.my_color,
                    old(searcher).tt@,
                    deadline,
                    cancel,
                    found,
                    searcher.tt@,
                    reports,
                ) && search::took_all::<F>(reports);
            let plan = strategy::build_plan(StrategyKind::Search, found);
            assert(found_of(plan) == found);
            assert(is_selected(
                snapshot.board@,
                snapshot.board.hash,
                snapshot.my_color,
                strategy,
                old(searcher).tt@,
                deadline,
                cancel,
                plan,
                searcher.tt@,
                reports,
            ));
            plan
        },
    }
}

/// The adaptive strategy takes a win that is there, and else stops a win of the opponent's.
pub proof fn law_adaptive_sees_wins(
    s: rules::Cells,
    hash: u64,
    color: Piece,
    before: table::Slots,
    deadline: Instant,
    cancel: &AtomicBool,
    r: Option<DecisionPlan>,
    after: table::Slots,
    reports: Seq<Report>,
)
    requires
        rules::is_cells(s),
        is_selected(s, hash, color, StrategyChoice::Adaptive, before, deadline, cancel, r, after, reports),
    ensures
        rules::has_winning_move(s, color) ==> (r matches Some(plan) && rules::would_win(s, plan.position, color)),
        !rules::has_winning_move(s, color) && rules::has_winning_move(s, rules::other(color)) ==> (r matches Some(plan)
            && rules::would_win(s, plan.position, rules::other(color))),
{
    crate::laws::law_winning_moves_are_all(s, color);
    crate::laws::law_winning_moves_are_all(s, rules::other(color));
}

/// The plan that was computed, or else the one that was thought of ahead.
pub fn final_plan(computed: Option<DecisionPlan>, pondered: Option<DecisionPlan>) -> (r: Option<DecisionPlan>)
    ensures
        r == (if computed is Some {
            computed
        } else {
            pondered
        }),
{
    match computed {
        Some(plan) => Some(plan),
        None => pondered,
    }
}

/// The opponent's move that is expected, and after how many moves.
#[derive(Copy, Clone, Debug, PartialEq, Eq, Structural)]
pub struct Prediction {
    pub position: Position,
    pub move_count: usize,
    pub my_color: Piece,
}

/// The board with one more stone of colour `color`, where it can be put.
pub fn board_after(board: &Board, position: Position, color: Piece) -> (r: Board)
    ensures
        r@ == (if rules::holds(position) && rules::is_free(board@, position) {
            rules::put(board@, position, color)
        } else {
            board@
        }),
        board.hash_matches() ==> r.hash_matches(),
{
    let mut r = board.clone();
    let _ = r.place(position, color);
    r
}

/// The opponent's move that is expected: the last of the candidates that score most for it.
pub open spec fn expected_reply(s: rules::Cells, my_color: Piece) -> Position {
    tactical::last_best(rules::candidates(s), strategy::by_attack(s, rules::other(my_color)))
}

/// Expects a reply to our last move, and the game after it; none on a full board.
pub fn predict(board: &Board, my_color: Piece) -> (r: Option<(Prediction, GameSnapshot)>)
    ensures
        r is None <==> rules::stones(board@) == 324,
        r matches Some(p) ==> {
            &&& p.0.position == expected_reply(board@, my_color)
            &&& p.0.move_count == rules::stones(board@)
            &&& p.0.my_color == my_color
            &&& rules::is_free(board@, p.0.position)
            &&& p.1.board@ == rules::put(board@, p.0.position, rules::other(my_color))
            &&& p.1.player_turn == my_color
            &&& p.1.my_color == my_color
            &&& board.hash_matches() ==> p.1.board.hash_matches()
        },
{
    let opponent = my_color.opponent();
    let candidates = board.candidate_positions();
    let ghost key = strategy::by_attack(board@, opponent);
    proof {
        crate::laws::law_candidates(board@);
        crate::laws::law_candidates_until_full(board@);
    }
    if candidates.len() == 0 {
        return None;
    }
    let mut best = candidates[0];
    let mut best_score: i32 = board.score_move(best, opponent);
    let mut i: usize = 1;
    while i < candidates.len()
        invariant
            1 <= i <= candidates@.len(),
            key == strategy::by_attack(board@, opponent),
            best == tactical::last_best(candidates@.take(i as int), key),
            best_score == key(best),
        decreases candidates@.len() - i,
    {
        let p = candidates[i];
        proof {
            let next = candidates@.take(i + 1);
            assert(next.drop_last() =~= candidates@.take(i as int));
            assert(next.last() == p);
        }
        let score: i32 = board.score_move(p, opponent);
        if score >= best_score {
            best = p;
            best_score = score;
        }
        i = i + 1;
    }
    proof {
        assert(candidates@.take(i as int) =~= candidates@);
        tactical::lemma_last_best(candidates@, key);
    }
    let mut next = board.clone();
    let _ = next.place(best, opponent);
    let prediction = Prediction { position: best, move_count: board.move_count(), my_color };
    Some((prediction, GameSnapshot::new(next, my_color, my_color)))
}

/// What was expected has come: one more move, by the opponent, on the cell that was expected.
pub open spec fn came_true(p: Prediction, s: rules::Cells) -> bool {
    rules::stones(s) == p.move_count + 1 && rules::at(s, p.position.row as int, p.position.column as int) == Some(
        rules::other(p.my_color),
    )
}

/// The plan that was thought of ahead, if what was expected has come.
pub fn check_ponder_hit(prediction: &Prediction, board: &Board, pondered: Option<DecisionPlan>) -> (r: Option<
    DecisionPlan,
>)
    ensures
        r == (if came_true(*prediction, board@) {
            pondered
        } else {
            None
        }),
{
    let count: usize = board.move_count();
    if count == 0 || count - 1 != prediction.move_count {
        return None;
    }
    match board.get(prediction.position) {
        Some(piece) => if piece == prediction.my_color.opponent() {
            pondered
        } else {
            None
        },
        None => None,
    }
}

/// What was expected comes true just when the opponent plays on the cell that was expected.
pub proof fn law_prediction_comes_true(s: rules::Cells, my_color: Piece, reply: Position)
    requires
        rules::is_cells(s),
        rules::is_free(s, reply),
    ensures
        came_true(
            (Prediction {
                position: expected_reply(s, my_color),
                move_count: rules::stones(s) as usize,
                my_color,
            }),
            rules::put(s, reply, rules::other(my_color)),
        ) <==> reply == expected_reply(s, my_color),
{
    let p = expected_reply(s, my_color);
    let t = rules::put(s, reply, rules::other(my_color));
    lemma_room_left(s, reply);
    crate::laws::law_candidates(s);
    crate::laws::law_candidates_until_full(s);
    tactical::lemma_last_best(rules::candidates(s), strategy::by_attack(s, rules::other(my_color)));
    rules::lemma_stones_bounds(s, 324);
    rules::lemma_stones_update(s, rules::index(reply), Some(rules::other(my_color)), 324);
    if reply != p {
        assert(rules::at(t, p.row as int, p.column as int) == rules::at(s, p.row as int, p.column as int));
    }
}

} // verus!
