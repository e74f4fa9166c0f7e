//! Victory by consecutive threats.
//!
//! Extends the search for consecutive fours by moves that make an open three: where such a move
//! makes a four as well, its block may leave a threat that wins.
use std::time::Instant;

use vstd::prelude::*;

use crate::board::{Board, Piece, Position, SCORE_OPEN_THREE};
use crate::clock;
use crate::clock::{clock_says, keeps_asking, Deadline, Watch};
use crate::game::GameSnapshot;
use crate::rules;

use super::vcf;
use super::vcf::{look_for_win, Outcome, Verdict, VCF_MAX_DEPTH};
use super::{threat_candidates, PatternStrategy, Strategy};

verus! {

broadcast use crate::board::board_has_every_cell;

/// A move with this score makes an open three or better.
const VCT_THREAT_THRESHOLD: i32 = SCORE_OPEN_THREE;

/// How many plies are looked ahead.
pub const VCT_MAX_DEPTH: usize = 30;

/// Finds and blocks forced wins by consecutive threats.
#[derive(Copy, Clone, Debug, Default)]
pub struct VctStrategy;

/// The attacker, whose move it is, wins by consecutive fours, or by consecutive threats before
/// `max_depth`.
pub open spec fn threats_win(s: rules::Cells, attacker: Piece, depth: int, max_depth: int) -> bool
    decreases vcf::plies_left(depth, max_depth), 2int, 0int,
{
    depth < max_depth && (vcf::vcf_win(s, attacker, 40) is Some || some_threat_wins(s, attacker, depth, max_depth, 0))
}

/// Of the threats that the attacker can make, the best first, some one from place `i` on wins.
pub open spec fn some_threat_wins(s: rules::Cells, attacker: Piece, depth: int, max_depth: int, i: int) -> bool
    decreases vcf::plies_left(depth, max_depth), 1int, super::threats(s, attacker, 8_000).len() - i,
{
    let moves = super::threats(s, attacker, 8_000);
    0 <= i < moves.len() && (next_threat_wins(s, moves[i], attacker, depth, max_depth) || some_threat_wins(
        s,
        attacker,
        depth,
        max_depth,
        i + 1,
    ))
}

/// The attacker's move `mv` wins by consecutive threats: it makes five; or the defender has no win
/// after it, and two wins threaten, or one does and the attacker wins on after its block.
pub open spec fn next_threat_wins(s: rules::Cells, mv: Position, attacker: Piece, depth: int, max_depth: int) -> bool
    decreases vcf::plies_left(depth, max_depth), 0int, 0int,
{
    let defender = rules::other(attacker);
    let t = rules::put(s, mv, attacker);
    let wins = rules::winning_moves(t, attacker);
    let blocked = rules::put(t, wins[0], defender);
    ||| rules::would_win(s, mv, attacker)
    ||| !rules::has_winning_move(t, defender) && wins.len() >= 2
    ||| !rules::has_winning_move(t, defender) && wins.len() == 1 && (vcf::vcf_win(blocked, attacker, 40) is Some || (
    depth < max_depth && threats_win(blocked, attacker, depth + 2, max_depth)))
}

/// The attacker's first move `mv` wins by consecutive threats within `max_depth` plies.
pub open spec fn starts_win(s: rules::Cells, attacker: Piece, max_depth: int) -> spec_fn(Position) -> bool {
    |mv: Position| next_threat_wins(s, mv, attacker, 0, max_depth)
}

/// The first move of a win by consecutive fours, else of one by consecutive threats.
pub open spec fn vct_win(s: rules::Cells, attacker: Piece, max_depth: int) -> Option<Position> {
    if vcf::vcf_win(s, attacker, 40) is Some {
        vcf::vcf_win(s, attacker, 40)
    } else if max_depth <= 0 {
        None
    } else {
        vcf::first_from(super::threats(s, attacker, 8_000), starts_win(s, attacker, max_depth), 0)
    }
}

/// How often the time is asked for until `threats_win` is settled: once, by the look for consecutive
/// fours, and where that finds nothing, by the threats.
pub open spec fn threats_asks(s: rules::Cells, attacker: Piece, depth: int, max_depth: int) -> nat
    decreases vcf::plies_left(depth, max_depth), 2int, 0int,
{
    if depth >= max_depth {
        0
    } else {
        1 + vcf::vcf_asks(s, attacker, 40) + if vcf::vcf_win(s, attacker, 40) is Some {
            0
        } else {
            some_threat_asks(s, attacker, depth, max_depth, 0)
        }
    }
}

/// How often the threats from place `i` on ask for the time: each once, and by what follows it, until
/// one wins.
pub open spec fn some_threat_asks(s: rules::Cells, attacker: Piece, depth: int, max_depth: int, i: int) -> nat
    decreases vcf::plies_left(depth, max_depth), 1int, super::threats(s, attacker, 8_000).len() - i,
{
    let moves = super::threats(s, attacker, 8_000);
    if i < 0 || i >= moves.len() {
        0
    } else {
        1 + next_threat_asks(s, moves[i], attacker, depth, max_depth) + if next_threat_wins(
            s,
            moves[i],
            attacker,
            depth,
            max_depth,
        ) {
            0
        } else {
            some_threat_asks(s, attacker, depth, max_depth, i + 1)
        }
    }
}

/// How often the attacker's move `mv` asks for the time: only where its one threat is blocked; then by
/// the look for consecutive fours, and where that finds nothing, by the threats that follow.
pub open spec fn next_threat_asks(s: rules::Cells, mv: Position, attacker: Piece, depth: int, max_depth: int) -> nat
    decreases vcf::plies_left(depth, max_depth), 0int, 0int,
{
    let defender = rules::other(attacker);
    let t = rules::put(s, mv, attacker);
    let wins = rules::winning_moves(t, attacker);
    let blocked = rules::put(t, wins[0], defender);
    if rules::would_win(s, mv, attacker) || rules::has_winning_move(t, defender) || wins.len() != 1 {
        0
    } else {
        vcf::vcf_asks(blocked, attacker, 40) + if vcf::vcf_win(blocked, attacker, 40) is Some || depth >= max_depth {
            0
        } else {
            threats_asks(blocked, attacker, depth + 2, max_depth)
        }
    }
}

/// How often the look for a win by consecutive threats asks for the time.
pub open spec fn vct_asks(s: rules::Cells, attacker: Piece, max_depth: int) -> nat {
    vcf::vcf_asks(s, attacker, 40) + if vcf::vcf_win(s, attacker, 40) is Some || max_depth <= 0 {
        0
    } else {
        some_threat_asks(s, attacker, 0, max_depth, 0)
    }
}

/// Tries the attacker's move `mv`.
fn try_threat(
    board: &mut Board,
    mv: Position,
    attacker: Piece,
    depth: usize,
    max_depth: usize,
    watch: &mut Watch,
) -> (v: Verdict)
    requires
        old(watch).in_step(),
        rules::is_free(old(board)@, mv),
        depth <= rules::stones(old(board)@),
    ensures
        vcf::unchanged(*old(board), *final(board)),
        vcf::judges(
            v,
            next_threat_wins(old(board)@, mv, attacker, depth as int, max_depth as int),
            next_threat_asks(old(board)@, mv, attacker, depth as int, max_depth as int),
            *old(watch),
            *final(watch),
        ),
    decreases vcf::plies_left(depth as int, max_depth as int), 1int,
{
    if board.would_win(mv, attacker) {
        return Verdict::Win;
    }
    let ghost s = board@;
    let defender = attacker.opponent();
    proof {
        rules::law_undo_reverts_place(s, board.hash, mv, attacker);
        rules::lemma_stones_bounds(s, 324);
    }
    let placed = board.place(mv, attacker);
    assert(placed is Ok);
    let ghost t = board@;
    let count: usize = board.count_winning_moves_up_to(attacker, 2);
    let verdict = if count == 0 || board.has_winning_move(defender) {
        Verdict::NoWin
    } else if count >= 2 {
        Verdict::Win
    } else {
        match board.first_winning_move(attacker) {
            Some(block) => {
                proof {
                    crate::laws::law_winning_moves_are_all(t, attacker);
                    assert(rules::would_win(t, block, attacker));
                    rules::law_undo_reverts_place(t, board.hash, block, defender);
                }
                let blocked = board.place(block, defender);
                assert(blocked is Ok);
                let after = win_on(board, attacker, depth, max_depth, watch);
                board.undo(block);
                after
            },
            None => Verdict::NoWin,
        }
    };
    board.undo(mv);
    verdict
}

/// What the attacker makes of the position after the forced block.
fn win_on(board: &mut Board, attacker: Piece, depth: usize, max_depth: usize, watch: &mut Watch) -> (v: Verdict)
    requires
        old(watch).in_step(),
        depth + 2 <= rules::stones(old(board)@),
    ensures
        vcf::unchanged(*old(board), *final(board)),
        vcf::judges(
            v,
            vcf::vcf_win(old(board)@, attacker, 40) is Some || (depth < max_depth && threats_win(
                old(board)@,
                attacker,
                depth + 2,
                max_depth as int,
            )),
            vcf::vcf_asks(old(board)@, attacker, 40) + if vcf::vcf_win(old(board)@, attacker, 40) is Some || depth
                >= max_depth {
                0
            } else {
                threats_asks(old(board)@, attacker, depth + 2, max_depth as int)
            },
            *old(watch),
            *final(watch),
        ),
    decreases vcf::plies_left(depth as int, max_depth as int), 0int,
{
    match look_for_win(board, attacker, VCF_MAX_DEPTH, watch) {
        Outcome::Found(_) => Verdict::Win,
        Outcome::Stopped => Verdict::Stopped,
        Outcome::NoWin => {
            if depth >= max_depth {
                Verdict::NoWin
            } else {
                proof {
                    rules::lemma_stones_bounds(board@, 324);
                }
                follow_threats(board, attacker, depth + 2, max_depth, watch)
            }
        },
    }
}

/// Whether the attacker wins from here.
fn follow_threats(board: &mut Board, attacker: Piece, depth: usize, max_depth: usize, watch: &mut Watch) -> (v: Verdict)
    requires
        old(watch).in_step(),
        depth <= rules::stones(old(board)@),
    ensures
        vcf::unchanged(*old(board), *final(board)),
        vcf::judges(
            v,
            threats_win(old(board)@, attacker, depth as int, max_depth as int),
            threats_asks(old(board)@, attacker, depth as int, max_depth as int),
            *old(watch),
            *final(watch),
        ),
    decreases vcf::plies_left(depth as int, max_depth as int), 2int,
{
    if depth >= max_depth {
        return Verdict::NoWin;
    }
    if watch.time_is_up() {
        return Verdict::Stopped;
    }
    match look_for_win(board, attacker, VCF_MAX_DEPTH, watch) {
        Outcome::Found(_) => {
            return Verdict::Win;
        },
        Outcome::Stopped => {
            return Verdict::Stopped;
        },
        Outcome::NoWin => {},
    }
    let ghost s = board@;
    let ghost start = *board;
    let threats = threat_candidates(board, attacker, VCT_THREAT_THRESHOLD);
    let ghost moves = super::threats(s, attacker, 8_000);
    let ghost mut done: nat = 1 + vcf::vcf_asks(s, attacker, 40);
    let mut i: usize = 0;
    while i < threats.len()
        invariant
            i <= threats@.len(),
            threats@.len() == moves.len(),
            moves == super::threats(s, attacker, 8_000),
            s.len() == 324,
            s == start@,
            vcf::unchanged(*old(board), start),
            vcf::unchanged(start, *board),
            depth <= rules::stones(s),
            depth < max_depth,
            vcf::vcf_win(s, attacker, 40) is None,
            forall|k: int| 0 <= k < moves.len() ==> (#[trigger] threats@[k]).0 == moves[k],
            some_threat_wins(s, attacker, depth as int, max_depth as int, 0) == some_threat_wins(
                s,
                attacker,
                depth as int,
                max_depth as int,
                i as int,
            ),
            watch.in_step(),
            watch.deadline == old(watch).deadline,
            keeps_asking(watch.deadline, old(watch).answers@, watch.answers@, done, false),
            threats_asks(s, attacker, depth as int, max_depth as int) == done + some_threat_asks(
                s,
                attacker,
                depth as int,
                max_depth as int,
                i as int,
            ),
        decreases threats@.len() - i,
    {
        if watch.time_is_up() {
            return Verdict::Stopped;
        }
        let mv = threats[i].0;
        proof {
            super::lemma_threat_is_free(s, attacker, 8_000, i as int);
        }
        match try_threat(board, mv, attacker, depth, max_depth, watch) {
            Verdict::Win => {
                return Verdict::Win;
            },
            Verdict::NoWin => {
                proof {
                    done = done + 1 + next_threat_asks(s, moves[i as int], attacker, depth as int, max_depth as int);
                }
            },
            Verdict::Stopped => {
                return Verdict::Stopped;
            },
        }
        i = i + 1;
    }
    Verdict::NoWin
}

/// Looks for the first move of a forced win of the attacker. The board is left as it was.
pub fn look_for_vct_win(board: &mut Board, attacker: Piece, max_depth: usize, watch: &mut Watch) -> (r: Outcome)
    requires
        old(watch).in_step(),
    ensures
        vcf::unchanged(*old(board), *final(board)),
        vcf::settles(
            r,
            vct_win(old(board)@, attacker, max_depth as int),
            vct_asks(old(board)@, attacker, max_depth as int),
            *old(watch),
            *final(watch),
        ),
{
    match look_for_win(board, attacker, VCF_MAX_DEPTH, watch) {
        Outcome::Found(mv) => {
            return Outcome::Found(mv);
        },
        Outcome::Stopped => {
            return Outcome::Stopped;
        },
        Outcome::NoWin => {},
    }
    if max_depth == 0 {
        return Outcome::NoWin;
    }
    let ghost s = board@;
    let ghost start = *board;
    let threats = threat_candidates(board, attacker, VCT_THREAT_THRESHOLD);
    let ghost moves = super::threats(s, attacker, 8_000);
    let ghost wins = starts_win(s, attacker, max_depth as int);
    let ghost mut done: nat = vcf::vcf_asks(s, attacker, 40);
    let mut i: usize = 0;
    while i < threats.len()
        invariant
            i <= threats@.len(),
            threats@.len() == moves.len(),
            moves == super::threats(s, attacker, 8_000),
            wins == starts_win(s, attacker, max_depth as int),
            s.len() == 324,
            s == start@,
            vcf::unchanged(*old(board), start),
            vcf::unchanged(start, *board),
            max_depth > 0,
            vcf::vcf_win(s, attacker, 40) is None,
            forall|k: int| 0 <= k < moves.len() ==> (#[trigger] threats@[k]).0 == moves[k],
            vcf::first_from(moves, wins, 0) == vcf::first_from(moves, wins, i as int),
            watch.in_step(),
            watch.deadline == old(watch).deadline,
            keeps_asking(watch.deadline, old(watch).answers@, watch.answers@, done, false),
            vct_asks(s, attacker, max_depth as int) == done + some_threat_asks(
                s,
                attacker,
                0,
                max_depth as int,
                i as int,
            ),
        decreases threats@.len() - i,
    {
        if watch.time_is_up() {
            return Outcome::Stopped;
        }
        let mv = threats[i].0;
        proof {
            super::lemma_threat_is_free(s, attacker, 8_000, i as int);
            rules::lemma_stones_bounds(s, 324);
        }
        match try_threat(board, mv, attacker, 0, max_depth, watch) {
            Verdict::Win => {
                return Outcome::Found(mv);
            },
            Verdict::NoWin => {
                proof {
                    done = done + 1 + next_threat_asks(s, moves[i as int], attacker, 0, max_depth as int);
                }
            },
            Verdict::Stopped => {
                return Outcome::Stopped;
            },
        }
        i = i + 1;
    }
    Outcome::NoWin
}

/// What the strategy chooses: a win of its own, else the first move of the opponent's.
pub open spec fn vct_choice(s: rules::Cells, color: Piece) -> Option<super::Choice> {
    match vct_win(s, color, 30) {
        Some(mv) => Some((mv, 950_000, "vct forced win"@)),
        None => match vct_win(s, rules::other(color), 30) {
            Some(mv) => Some((mv, 850_000, "vct block"@)),
            None => None,
        },
    }
}

/// A timed search that has to begin after its deadline finds nothing.
pub proof fn law_nothing_is_found_too_late(
    s: rules::Cells,
    attacker: Piece,
    max_depth: int,
    deadline: Instant,
    r: Option<Position>,
)
    requires
        vcf::timed(r, vct_win(s, attacker, max_depth), vct_asks(s, attacker, max_depth), deadline),
        clock::has_passed(deadline),
    ensures
        r is None,
{
    clock::lemma_has_passed(deadline, 0, deadline);
}

impl VctStrategy {
    /// The first move of a forced win of the attacker, or `None`. The board is left as it was.
    pub fn find_win(board: &mut Board, attacker: Piece, max_depth: usize) -> (r: Option<Position>)
        ensures
            vcf::unchanged(*old(board), *final(board)),
            r == vct_win(old(board)@, attacker, max_depth as int),
    {
        let mut watch = Watch::new(Deadline::Never);
        match look_for_vct_win(board, attacker, max_depth, &mut watch) {
            Outcome::Found(mv) => Some(mv),
            _ => None,
        }
    }

    /// Like `find_win`, but gives up when `deadline` comes.
    pub fn find_win_timed(board: &mut Board, attacker: Piece, max_depth: usize, deadline: Instant) -> (r: Option<
        Position,
    >)
        ensures
            vcf::unchanged(*old(board), *final(board)),
            vcf::timed(
                r,
                vct_win(old(board)@, attacker, max_depth as int),
                vct_asks(old(board)@, attacker, max_depth as int),
                deadline,
            ),
            r is Some ==> r == vct_win(old(board)@, attacker, max_depth as int) && clock_says(deadline, false),
    {
        let mut watch = Watch::new(Deadline::At(deadline));
        let r = look_for_vct_win(board, attacker, max_depth, &mut watch);
        assert(watch.answers@ > 0 ==> watch.deadline.says(0, false));
        match r {
            Outcome::Found(mv) => Some(mv),
            _ => None,
        }
    }

    /// Like `find_win`, with a clock that says what `answers` says, and after that that the time is up.
    /// It is asked before each threat that is tried, before the threats that follow a block, and by
    /// each look for consecutive fours.
    pub fn find_win_told(board: &mut Board, attacker: Piece, max_depth: usize, answers: &Vec<bool>) -> (r: Option<
        Position,
    >)
        ensures
            vcf::unchanged(*old(board), *final(board)),
            r == vcf::told(
                vct_win(old(board)@, attacker, max_depth as int),
                vct_asks(old(board)@, attacker, max_depth as int),
                answers@,
            ),
    {
        let ghost asks = vct_asks(board@, attacker, max_depth as int);
        let mut watch = Watch::new(Deadline::Told(answers));
        let r = look_for_vct_win(board, attacker, max_depth, &mut watch);
        proof {
            clock::lemma_told(answers, watch.answers@, asks, r is Stopped);
        }
        match r {
            Outcome::Found(mv) => Some(mv),
            _ => None,
        }
    }

    /// A forced win of ours, else the first move of one of the opponent's, to block it.
    pub fn pick(snapshot: &GameSnapshot) -> (r: Option<(Position, i32, String)>)
        ensures
            super::is_choice(r, vct_choice(snapshot.board@, snapshot.my_color)),
    {
        let mut board = snapshot.board.clone();
        let attacker = snapshot.my_color;
        if let Some(mv) = Self::find_win(&mut board, attacker, VCT_MAX_DEPTH) {
            return Some((mv, 950_000, "vct forced win".to_owned()));
        }
        if let Some(mv) = Self::find_win(&mut board, attacker.opponent(), VCT_MAX_DEPTH) {
            return Some((mv, 850_000, "vct block".to_owned()));
        }
        None
    }
}

impl Strategy for VctStrategy {
    fn name(&self) -> (r: &'static str)
        ensures
            r@ == "vct"@,
    {
        "vct"
    }

    /// Where no win is forced, the move of the pattern strategy.
    fn select_move(&self, snapshot: &GameSnapshot) -> (r: Option<Position>)
        ensures
            r == (match vct_choice(snapshot.board@, snapshot.my_color) {
                Some(c) => Some(c.0),
                None => super::cell_of(super::pattern::pattern_choice(snapshot.board@, snapshot.my_color)),
            }),
    {
        match Self::pick(snapshot) {
            Some((position, _, _)) => Some(position),
            None => match PatternStrategy::pick(snapshot) {
                Some((position, _, _)) => Some(position),
                None => None,
            },
        }
    }
}

} // verus!
