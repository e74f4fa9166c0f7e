//! Victory by consecutive fours.
//!
//! A forced win in which every move of the attacker makes a four, so that the defender has exactly
//! one reply. The tree is nearly linear and can be searched deep.
use std::time::Instant;

use vstd::prelude::*;

use crate::board::{Board, Piece, Position, SCORE_FOUR};
use crate::clock;
use crate::clock::{clock_says, keeps_asking, lasts, Deadline, Watch};
use crate::game::GameSnapshot;
use crate::rules;

use super::{threat_candidates, Strategy};

verus! {

broadcast use crate::board::board_has_every_cell;

/// A move with this score makes a four or better.
const FOUR_SCORE_THRESHOLD: i32 = SCORE_FOUR;

/// How many plies are looked ahead: a move of the attacker and the forced block count two.
pub const VCF_MAX_DEPTH: usize = 40;

/// Finds and blocks forced wins by consecutive fours.
#[derive(Copy, Clone, Debug, Default)]
pub struct VcfStrategy;

/// The first of `moves`, from place `i` on, for which `wins` holds.
pub open spec fn first_from(moves: Seq<Position>, wins: spec_fn(Position) -> bool, i: int) -> Option<Position>
    decreases moves.len() - i,
{
    if i < 0 || i >= moves.len() {
        None
    } else if wins(moves[i]) {
        Some(moves[i])
    } else {
        first_from(moves, wins, i + 1)
    }
}

/// How many plies are left.
pub open spec fn plies_left(depth: int, max_depth: int) -> nat {
    if depth < max_depth {
        (max_depth - depth) as nat
    } else {
        0
    }
}

/// The defender is to move, the attacker has made a four, and wins by consecutive fours before
/// `max_depth`: either two wins threaten and the defender has none, or the one that threatens is
/// blocked and some four then wins.
pub open spec fn four_wins(s: rules::Cells, attacker: Piece, depth: int, max_depth: int) -> bool
    decreases plies_left(depth, max_depth), 2int, 0int,
{
    let defender = rules::other(attacker);
    let wins = rules::winning_moves(s, attacker);
    &&& depth < max_depth
    &&& wins.len() > 0
    &&& !rules::has_winning_move(s, defender)
    &&& wins.len() >= 2 || some_four_wins(rules::put(s, wins[0], defender), attacker, depth, max_depth, 0)
}

/// Of the fours that the attacker can make, the best first, some one from place `i` on wins by
/// consecutive fours.
pub open spec fn some_four_wins(s: rules::Cells, attacker: Piece, depth: int, max_depth: int, i: int) -> bool
    decreases plies_left(depth, max_depth), 1int, super::threats(s, attacker, 25_000).len() - i,
{
    let fours = super::threats(s, attacker, 25_000);
    0 <= i < fours.len() && (next_four_wins(s, fours[i], attacker, depth, max_depth) || some_four_wins(
        s,
        attacker,
        depth,
        max_depth,
        i + 1,
    ))
}

/// The attacker's move `mv` wins by consecutive fours: it makes five, or two wins threaten after
/// it and the defender has none, or one threatens and its block is followed up.
pub open spec fn next_four_wins(
    s: rules::Cells,
    mv: Position,
    attacker: Piece,
    depth: int,
    max_depth: int,
) -> bool
    decreases plies_left(depth, max_depth), 0int, 0int,
{
    let t = rules::put(s, mv, attacker);
    let wins = rules::winning_moves(t, attacker);
    ||| rules::would_win(s, mv, attacker)
    ||| wins.len() >= 2 && !rules::has_winning_move(t, rules::other(attacker))
    ||| wins.len() == 1 && depth < max_depth && four_wins(t, attacker, depth + 2, max_depth)
}

/// The attacker's first move `mv` wins by consecutive fours within `max_depth` plies.
pub open spec fn starts_win(s: rules::Cells, attacker: Piece, max_depth: int) -> spec_fn(Position) -> bool {
    |mv: Position| next_four_wins(s, mv, attacker, 0, max_depth)
}

/// The first move of a win by consecutive fours: of the candidates that make a four, the best
/// first, the first one that wins.
pub open spec fn vcf_win(s: rules::Cells, attacker: Piece, max_depth: int) -> Option<Position> {
    first_from(super::threats(s, attacker, 25_000), starts_win(s, attacker, max_depth), 0)
}

/// How often the time is asked for until `four_wins` is settled: once, and by the fours after the
/// block, where there is one.
pub open spec fn four_asks(s: rules::Cells, attacker: Piece, depth: int, max_depth: int) -> nat
    decreases plies_left(depth, max_depth), 2int, 0int,
{
    let defender = rules::other(attacker);
    let wins = rules::winning_moves(s, attacker);
    if depth >= max_depth {
        0
    } else if wins.len() == 1 && !rules::has_winning_move(s, defender) {
        1 + some_four_asks(rules::put(s, wins[0], defender), attacker, depth, max_depth, 0)
    } else {
        1
    }
}

/// How often the fours from place `i` on ask for the time: each once, and by what follows it, until
/// one wins.
pub open spec fn some_four_asks(s: rules::Cells, attacker: Piece, depth: int, max_depth: int, i: int) -> nat
    decreases plies_left(depth, max_depth), 1int, super::threats(s, attacker, 25_000).len() - i,
{
    let fours = super::threats(s, attacker, 25_000);
    if i < 0 || i >= fours.len() {
        0
    } else {
        1 + next_four_asks(s, fours[i], attacker, depth, max_depth) + if next_four_wins(
            s,
            fours[i],
            attacker,
            depth,
            max_depth,
        ) {
            0
        } else {
            some_four_asks(s, attacker, depth, max_depth, i + 1)
        }
    }
}

/// How often the attacker's move `mv` asks for the time: only where its one threat is blocked and
/// followed up.
pub open spec fn next_four_asks(s: rules::Cells, mv: Position, attacker: Piece, depth: int, max_depth: int) -> nat
    decreases plies_left(depth, max_depth), 0int, 0int,
{
    let t = rules::put(s, mv, attacker);
    if !rules::would_win(s, mv, attacker) && rules::winning_moves(t, attacker).len() == 1 && depth < max_depth {
        four_asks(t, attacker, depth + 2, max_depth)
    } else {
        0
    }
}

/// How often the look for a win by consecutive fours asks for the time.
pub open spec fn vcf_asks(s: rules::Cells, attacker: Piece, max_depth: int) -> nat {
    some_four_asks(s, attacker, 0, max_depth, 0)
}

/// What a look ahead has shown.
#[derive(Copy, Clone, Debug, PartialEq, Eq, Structural)]
pub enum Verdict {
    Win,
    NoWin,
    /// The time was up first.
    Stopped,
}

/// `v` is the verdict on whether `wins` holds, which is settled after there was time left for `asks`
/// answers; the look ahead is stopped just when the time is up before.
pub open spec fn judges(v: Verdict, wins: bool, asks: nat, before: Watch, after: Watch) -> bool {
    &&& after.in_step()
    &&& after.deadline == before.deadline
    &&& keeps_asking(before.deadline, before.answers@, after.answers@, asks, v is Stopped)
    &&& match v {
        Verdict::Win => wins,
        Verdict::NoWin => !wins,
        Verdict::Stopped => true,
    }
}

/// The board is as it was.
pub open spec fn unchanged(before: Board, after: Board) -> bool {
    after@ == before@ && after.hash == before.hash
}

/// Tries the attacker's move `mv`.
fn try_four(
    board: &mut Board,
    mv: Position,
    attacker: Piece,
    depth: usize,
    max_depth: usize,
    watch: &mut Watch,
) -> (v: Verdict)
    requires
        old(watch).in_step(),
        rules::is_free(old(board)@, mv),
        depth <= 2 * rules::stones(old(board)@),
    ensures
        unchanged(*old(board), *final(board)),
        judges(
            v,
            next_four_wins(old(board)@, mv, attacker, depth as int, max_depth as int),
            next_four_asks(old(board)@, mv, attacker, depth as int, max_depth as int),
            *old(watch),
            *final(watch),
        ),
    decreases plies_left(depth as int, max_depth as int), 0int,
{
    if board.would_win(mv, attacker) {
        return Verdict::Win;
    }
    let ghost s = board@;
    proof {
        rules::law_undo_reverts_place(s, board.hash, mv, attacker);
        rules::lemma_stones_bounds(s, 324);
    }
    let placed = board.place(mv, attacker);
    assert(placed is Ok);
    let count: usize = board.count_winning_moves_up_to(attacker, 2);
    let verdict = if count == 0 {
        Verdict::NoWin
    } else if count >= 2 {
        if board.has_winning_move(attacker.opponent()) {
            Verdict::NoWin
        } else {
            Verdict::Win
        }
    } else if depth >= max_depth {
        Verdict::NoWin
    } else {
        follow_up(board, attacker, depth + 2, max_depth, watch)
    };
    board.undo(mv);
    verdict
}

/// The defender's forced reply to a four, and the fours after it.
fn follow_up(board: &mut Board, attacker: Piece, depth: usize, max_depth: usize, watch: &mut Watch) -> (v: Verdict)
    requires
        old(watch).in_step(),
        depth <= 2 * rules::stones(old(board)@),
    ensures
        unchanged(*old(board), *final(board)),
        judges(
            v,
            four_wins(old(board)@, attacker, depth as int, max_depth as int),
            four_asks(old(board)@, attacker, depth as int, max_depth as int),
            *old(watch),
            *final(watch),
        ),
    decreases plies_left(depth as int, max_depth as int), 2int,
{
    if depth >= max_depth {
        return Verdict::NoWin;
    }
    if watch.time_is_up() {
        return Verdict::Stopped;
    }
    let count: usize = board.count_winning_moves_up_to(attacker, 2);
    if count == 0 {
        return Verdict::NoWin;
    }
    // The defender wins first, rather than block, where that can be done.
    let defender = attacker.opponent();
    if board.has_winning_move(defender) {
        return Verdict::NoWin;
    }
    if count >= 2 {
        return Verdict::Win;
    }
    let ghost s = board@;
    match board.first_winning_move(attacker) {
        Some(block) => {
            proof {
                crate::laws::law_winning_moves_are_all(s, attacker);
                assert(rules::would_win(s, block, attacker));
                rules::law_undo_reverts_place(s, board.hash, block, defender);
            }
            let placed = board.place(block, defender);
            assert(placed is Ok);
            let verdict = try_fours(board, attacker, depth, max_depth, watch);
            board.undo(block);
            verdict
        },
        None => Verdict::NoWin,
    }
}

/// Tries every four of the attacker, the best first.
fn try_fours(board: &mut Board, attacker: Piece, depth: usize, max_depth: usize, watch: &mut Watch) -> (v: Verdict)
    requires
        old(watch).in_step(),
        depth <= 2 * rules::stones(old(board)@),
        depth < max_depth,
    ensures
        unchanged(*old(board), *final(board)),
        judges(
            v,
            some_four_wins(old(board)@, attacker, depth as int, max_depth as int, 0),
            some_four_asks(old(board)@, attacker, depth as int, max_depth as int, 0),
            *old(watch),
            *final(watch),
        ),
    decreases plies_left(depth as int, max_depth as int), 1int,
{
    let ghost s = board@;
    let ghost start = *board;
    let fours = threat_candidates(board, attacker, FOUR_SCORE_THRESHOLD);
    let ghost moves = super::threats(s, attacker, 25_000);
    let ghost mut done: nat = 0;
    let mut i: usize = 0;
    while i < fours.len()
        invariant
            i <= fours@.len(),
            fours@.len() == moves.len(),
            moves == super::threats(s, attacker, 25_000),
            s.len() == 324,
            s == start@,
            start == *old(board),
            unchanged(start, *board),
            depth <= 2 * rules::stones(s),
            depth < max_depth,
            forall|k: int| 0 <= k < moves.len() ==> (#[trigger] fours@[k]).0 == moves[k],
            some_four_wins(s, attacker, depth as int, max_depth as int, 0) == some_four_wins(
                s,
                attacker,
                depth as int,
                max_depth as int,
                i as int,
            ),
            watch.in_step(),
            watch.deadline == old(watch).deadline,
            keeps_asking(watch.deadline, old(watch).answers@, watch.answers@, done, false),
            some_four_asks(s, attacker, depth as int, max_depth as int, 0) == done + some_four_asks(
                s,
                attacker,
                depth as int,
                max_depth as int,
                i as int,
            ),
        decreases fours@.len() - i,
    {
        if watch.time_is_up() {
            return Verdict::Stopped;
        }
        let mv = fours[i].0;
        proof {
            super::lemma_threat_is_free(s, attacker, 25_000, i as int);
        }
        match try_four(board, mv, attacker, depth, max_depth, watch) {
            Verdict::Win => {
                assert(next_four_wins(s, moves[i as int], attacker, depth as int, max_depth as int));
                return Verdict::Win;
            },
            Verdict::NoWin => {
                proof {
                    done = done + 1 + next_four_asks(s, moves[i as int], attacker, depth as int, max_depth as int);
                }
            },
            Verdict::Stopped => {
                return Verdict::Stopped;
            },
        }
        i = i + 1;
    }
    Verdict::NoWin
}

/// What a search for a forced win has come to.
#[derive(Copy, Clone, Debug, PartialEq, Eq, Structural)]
pub enum Outcome {
    Found(Position),
    NoWin,
    /// The time was up first.
    Stopped,
}

/// `r` is the outcome of a search that finds `win`, which is settled after there was time left for
/// `asks` answers; it is stopped just when the time is up before.
pub open spec fn settles(r: Outcome, win: Option<Position>, asks: nat, before: Watch, after: Watch) -> bool {
    &&& after.in_step()
    &&& after.deadline == before.deadline
    &&& keeps_asking(before.deadline, before.answers@, after.answers@, asks, r is Stopped)
    &&& match r {
        Outcome::Found(mv) => win == Some(mv),
        Outcome::NoWin => win is None,
        Outcome::Stopped => true,
    }
}

/// Looks for the first move of a forced win of the attacker. The board is left as it was.
pub fn look_for_win(board: &mut Board, attacker: Piece, max_depth: usize, watch: &mut Watch) -> (r: Outcome)
    requires
        old(watch).in_step(),
    ensures
        unchanged(*old(board), *final(board)),
        settles(
            r,
            vcf_win(old(board)@, attacker, max_depth as int),
            vcf_asks(old(board)@, attacker, max_depth as int),
            *old(watch),
            *final(watch),
        ),
{
    let ghost s = board@;
    let ghost start = *board;
    let fours = threat_candidates(board, attacker, FOUR_SCORE_THRESHOLD);
    let ghost moves = super::threats(s, attacker, 25_000);
    let ghost wins = starts_win(s, attacker, max_depth as int);
    let ghost mut done: nat = 0;
    let mut i: usize = 0;
    while i < fours.len()
        invariant
            i <= fours@.len(),
            fours@.len() == moves.len(),
            moves == super::threats(s, attacker, 25_000),
            wins == starts_win(s, attacker, max_depth as int),
            s.len() == 324,
            s == start@,
            start == *old(board),
            unchanged(start, *board),
            forall|k: int| 0 <= k < moves.len() ==> (#[trigger] fours@[k]).0 == moves[k],
            first_from(moves, wins, 0) == first_from(moves, wins, i as int),
            watch.in_step(),
            watch.deadline == old(watch).deadline,
            keeps_asking(watch.deadline, old(watch).answers@, watch.answers@, done, false),
            vcf_asks(s, attacker, max_depth as int) == done + some_four_asks(s, attacker, 0, max_depth as int, i as int),
        decreases fours@.len() - i,
    {
        if watch.time_is_up() {
            return Outcome::Stopped;
        }
        let mv = fours[i].0;
        proof {
            super::lemma_threat_is_free(s, attacker, 25_000, i as int);
            rules::lemma_stones_bounds(s, 324);
        }
        match try_four(board, mv, attacker, 0, max_depth, watch) {
            Verdict::Win => {
                return Outcome::Found(mv);
            },
            Verdict::NoWin => {
                proof {
                    done = done + 1 + next_four_asks(s, moves[i as int], attacker, 0, max_depth as int);
                }
            },
            Verdict::Stopped => {
                return Outcome::Stopped;
            },
        }
        i = i + 1;
    }
    Outcome::NoWin
}

/// `r` may be what a search that finds `win` finds until `deadline` comes. It asks for the time, where
/// `asks` says so: it finds `win` only where there was time left, and gives up only where the deadline
/// had come.
pub open spec fn timed(r: Option<Position>, win: Option<Position>, asks: nat, deadline: Instant) -> bool {
    ||| r == win && (asks > 0 ==> clock_says(deadline, false))
    ||| r is None && asks > 0 && clock_says(deadline, true)
}

/// What a search that finds `win` finds when it is told the time: nothing, where it has to ask more
/// often than there is time left.
pub open spec fn told(win: Option<Position>, asks: nat, answers: Seq<bool>) -> Option<Position> {
    if lasts(answers, asks) {
        win
    } else {
        None
    }
}

/// What the strategy chooses: a win of its own, else the first move of the opponent's.
pub open spec fn vcf_choice(s: rules::Cells, color: Piece) -> Option<super::Choice> {
    match vcf_win(s, color, 40) {
        Some(mv) => Some((mv, 900_000, "vcf forced win"@)),
        None => match vcf_win(s, rules::other(color), 40) {
            Some(mv) => Some((mv, 800_000, "vcf block"@)),
            None => None,
        },
    }
}

/// A timed search that has to begin after its deadline finds nothing.
pub proof fn law_nothing_is_found_too_late(
    s: rules::Cells,
    attacker: Piece,
    max_depth: int,
    deadline: Instant,
    r: Option<Position>,
)
    requires
        timed(r, vcf_win(s, attacker, max_depth), vcf_asks(s, attacker, max_depth), deadline),
        clock::has_passed(deadline),
    ensures
        r is None,
{
    clock::lemma_has_passed(deadline, 0, deadline);
}

impl VcfStrategy {
    /// The first move of a forced win of the attacker, or `None`. The board is left as it was.
    pub fn find_win(board: &mut Board, attacker: Piece, max_depth: usize) -> (r: Option<Position>)
        ensures
            unchanged(*old(board), *final(board)),
            r == vcf_win(old(board)@, attacker, max_depth as int),
    {
        let mut watch = Watch::new(Deadline::Never);
        match look_for_win(board, attacker, max_depth, &mut watch) {
            Outcome::Found(mv) => Some(mv),
            _ => None,
        }
    }

    /// Like `find_win`, but gives up when `deadline` comes.
    pub fn find_win_timed(board: &mut Board, attacker: Piece, max_depth: usize, deadline: Instant) -> (r: Option<
        Position,
    >)
        ensures
            unchanged(*old(board), *final(board)),
            timed(
                r,
                vcf_win(old(board)@, attacker, max_depth as int),
                vcf_asks(old(board)@, attacker, max_depth as int),
                deadline,
            ),
            r is Some ==> r == vcf_win(old(board)@, attacker, max_depth as int) && clock_says(deadline, false),
    {
        let mut watch = Watch::new(Deadline::At(deadline));
        let r = look_for_win(board, attacker, max_depth, &mut watch);
        assert(watch.answers@ > 0 ==> watch.deadline.says(0, false));
        match r {
            Outcome::Found(mv) => Some(mv),
            _ => None,
        }
    }

    /// Like `find_win`, with a clock that says what `answers` says, and after that that the time is up.
    /// It is asked before each move of the attacker that is tried, and before each forced block.
    pub fn find_win_told(board: &mut Board, attacker: Piece, max_depth: usize, answers: &Vec<bool>) -> (r: Option<
        Position,
    >)
        ensures
            unchanged(*old(board), *final(board)),
            r == told(
                vcf_win(old(board)@, attacker, max_depth as int),
                vcf_asks(old(board)@, attacker, max_depth as int),
                answers@,
            ),
    {
        let ghost asks = vcf_asks(board@, attacker, max_depth as int);
        let mut watch = Watch::new(Deadline::Told(answers));
        let r = look_for_win(board, attacker, max_depth, &mut watch);
        proof {
            clock::lemma_told(answers, watch.answers@, asks, r is Stopped);
        }
        match r {
            Outcome::Found(mv) => Some(mv),
            _ => None,
        }
    }

    /// A forced win of ours, else the first move of one of the opponent's, to block it.
    pub fn pick(snapshot: &GameSnapshot) -> (r: Option<(Position, i32, String)>)
        ensures
            super::is_choice(r, vcf_choice(snapshot.board@, snapshot.my_color)),
    {
        let mut board = snapshot.board.clone();
        let attacker = snapshot.my_color;
        if let Some(mv) = Self::find_win(&mut board, attacker, VCF_MAX_DEPTH) {
            return Some((mv, 900_000, "vcf forced win".to_owned()));
        }
        if let Some(mv) = Self::find_win(&mut board, attacker.opponent(), VCF_MAX_DEPTH) {
            return Some((mv, 800_000, "vcf block".to_owned()));
        }
        None
    }
}

impl Strategy for VcfStrategy {
    fn name(&self) -> (r: &'static str)
        ensures
            r@ == "vcf"@,
    {
        "vcf"
    }

    fn select_move(&self, snapshot: &GameSnapshot) -> (r: Option<Position>)
        ensures
            r == super::cell_of(vcf_choice(snapshot.board@, snapshot.my_color)),
    {
        match Self::pick(snapshot) {
            Some((position, _, _)) => Some(position),
            None => None,
        }
    }
}

} // verus!
