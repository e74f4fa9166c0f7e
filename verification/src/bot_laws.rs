//! What a bot comes to know and to show, by what it is told.
use vstd::prelude::*;

use crate::board::{Move, Piece, Position};
use crate::history;
use crate::hub_laws;
use crate::hub_laws::is_sound;
use crate::hub_model as model;
use crate::hub_play_laws;
use crate::laws;
use crate::protocol::{GameState, Role, User};
use crate::rules;
use crate::runtime;
use crate::runtime::RuntimeModel;
use crate::selection;
use crate::strategy;
use crate::text;
use crate::ui;
use crate::ui::CandidateMove;

verus! {

/// Moves that can all be made leave each its stone, in its colour, and no other stones.
pub proof fn law_board_holds_its_moves(moves: Seq<Move>, i: int)
    requires
        history::replayed(moves) is Ok,
        0 <= i < moves.len(),
    ensures
        rules::on_board(moves[i].row as int, moves[i].column as int),
        rules::at(history::replayed(moves)->Ok_0, moves[i].row as int, moves[i].column as int) == Some(moves[i].color),
        rules::stones(history::replayed(moves)->Ok_0) == moves.len(),
    decreases moves.len(),
{
    history::law_every_move_is_a_stone(moves);
    history::law_every_move_is_a_stone(moves.drop_last());
    if i < moves.len() - 1 {
        law_board_holds_its_moves(moves.drop_last(), i);
    }
}

/// Moves cannot all be made just where one lies off the board, or two lie on one cell.
pub proof fn law_moves_fit_on_the_board(moves: Seq<Move>)
    ensures
        history::replayed(moves) is Ok <==> {
            &&& forall|i: int|
                0 <= i < moves.len() ==> rules::on_board((#[trigger] moves[i]).row as int, moves[i].column as int)
            &&& forall|i: int, j: int|
                0 <= i < j < moves.len() ==> (#[trigger] moves[i]).row != (#[trigger] moves[j]).row || moves[i].column
                    != moves[j].column
        },
    decreases moves.len(),
{
    if moves.len() > 0 {
        let before = moves.drop_last();
        let n = before.len() as int;
        let mv = moves.last();
        law_moves_fit_on_the_board(before);
        if history::replayed(before) is Ok {
            let s = history::replayed(before)->Ok_0;
            history::law_every_move_is_a_stone(before);
            let p = Position { row: mv.row, column: mv.column };
            if history::replayed(moves) is Ok {
                assert forall|i: int| 0 <= i < moves.len() implies rules::on_board(
                    (#[trigger] moves[i]).row as int,
                    moves[i].column as int,
                ) by {
                    if i < n {
                        assert(moves[i] == before[i]);
                    }
                }
                assert forall|i: int, j: int| 0 <= i < j < moves.len() implies (#[trigger] moves[i]).row != (
                #[trigger] moves[j]).row || moves[i].column != moves[j].column by {
                    if j < n {
                        assert(before[i] == moves[i] && before[j] == moves[j]);
                    } else {
                        law_board_holds_its_moves(before, i);
                        assert(before[i] == moves[i]);
                    }
                }
            } else if rules::holds(p) {
                lemma_stone_has_move(before, p);
                let i = choose|i: int|
                    0 <= i < before.len() && (#[trigger] before[i]).row == p.row && before[i].column == p.column;
                assert(moves[i] == before[i] && moves[n] == mv);
            } else {
                assert(moves[n] == mv);
            }
        } else if (forall|i: int|
            0 <= i < moves.len() ==> rules::on_board((#[trigger] moves[i]).row as int, moves[i].column as int)) && (
        forall|i: int, j: int|
            0 <= i < j < moves.len() ==> (#[trigger] moves[i]).row != (#[trigger] moves[j]).row || moves[i].column
                != moves[j].column) {
            assert forall|i: int| 0 <= i < before.len() implies rules::on_board(
                (#[trigger] before[i]).row as int,
                before[i].column as int,
            ) by {
                assert(moves[i] == before[i]);
            }
            assert forall|i: int, j: int| 0 <= i < j < before.len() implies (#[trigger] before[i]).row != (
            #[trigger] before[j]).row || before[i].column != before[j].column by {
                assert(moves[i] == before[i] && moves[j] == before[j]);
            }
        }
    }
}

/// Every stone comes from a move.
proof fn lemma_stone_has_move(moves: Seq<Move>, p: Position)
    requires
        history::replayed(moves) is Ok,
        rules::holds(p),
        !rules::is_free(history::replayed(moves)->Ok_0, p),
    ensures
        exists|i: int| 0 <= i < moves.len() && (#[trigger] moves[i]).row == p.row && moves[i].column == p.column,
    decreases moves.len(),
{
    if moves.len() > 0 {
        let before = moves.drop_last();
        let mv = moves.last();
        history::law_every_move_is_a_stone(before);
        if mv.row == p.row && mv.column == p.column {
            assert(moves[moves.len() - 1] == mv);
        } else {
            lemma_stone_has_move(before, p);
            let i = choose|i: int|
                0 <= i < before.len() && (#[trigger] before[i]).row == p.row && before[i].column == p.column;
            assert(moves[i] == before[i]);
        }
    }
}

/// What a bot shows are the candidates of its board, each once and in order, with what they score for its
/// colour and for the other; nothing while it has no colour.
pub proof fn law_bot_shows_the_candidates_of_its_board(m: RuntimeModel)
    requires
        rules::is_cells(m.cells),
    ensures
        ({
            let shown = runtime::refreshed(m).candidates;
            &&& m.my_color is None ==> shown.len() == 0
            &&& m.my_color matches Some(color) ==> {
                &&& shown.len() == rules::candidates(m.cells).len()
                &&& forall|i: int|
                    0 <= i < shown.len() ==> {
                        let p = rules::candidates(m.cells)[i];
                        let c = #[trigger] shown[i];
                        &&& c.row == p.row && c.column == p.column
                        &&& c.score_self == rules::score(m.cells, p, color)
                        &&& c.score_opponent == rules::score(m.cells, p, if color == Piece::Black {
                            Piece::White
                        } else {
                            Piece::Black
                        })
                        &&& !m.merge_candidate_scores ==> c.search_score is None
                        &&& m.merge_candidate_scores ==> c.search_score == Some(
                            (3 * c.score_self - c.score_opponent) as i32,
                        )
                    }
            }
        }),
{
    if let Some(color) = m.my_color {
        let all = rules::candidates(m.cells);
        let shown = runtime::refreshed(m).candidates;
        laws::law_candidates(m.cells);
        assert forall|i: int| 0 <= i < shown.len() implies ({
            let p = all[i];
            let c = #[trigger] shown[i];
            &&& c.row == p.row && c.column == p.column
            &&& c.score_self == rules::score(m.cells, p, color)
            &&& c.score_opponent == rules::score(m.cells, p, if color == Piece::Black {
                Piece::White
            } else {
                Piece::Black
            })
            &&& !m.merge_candidate_scores ==> c.search_score is None
            &&& m.merge_candidate_scores ==> c.search_score == Some((3 * c.score_self - c.score_opponent) as i32)
        }) by {
            assert(all.contains(all[i]));
            rules::law_million_means_five(m.cells, all[i], Piece::Black);
            rules::law_million_means_five(m.cells, all[i], Piece::White);
        }
    }
}

/// A bot that is told of a move puts the stone where it was played, in its colour, waits for the other
/// player from then on, and knows one move more; nothing else changes but the candidates.
pub proof fn law_bot_notes_a_move(m: RuntimeModel, mv: Move, now: u64)
    requires
        rules::is_cells(m.cells),
        runtime::move_fault(m.cells, mv) is None,
    ensures
        ({
            let after = runtime::moved(m, mv, now);
            &&& rules::at(m.cells, mv.row as int, mv.column as int) is None
            &&& rules::at(after.cells, mv.row as int, mv.column as int) == Some(mv.color)
            &&& forall|r: int, c: int|
                r != mv.row || c != mv.column ==> #[trigger] rules::at(after.cells, r, c) == rules::at(m.cells, r, c)
            &&& after.move_history == m.move_history.push(mv)
            &&& after.player_turn is Some
            &&& after.player_turn != Some(mv.color)
            &&& after.turn_started_at_ms == Some(now)
            &&& after.my_color == m.my_color
            &&& after.game_phase == m.game_phase
            &&& after.room_name == m.room_name
            &&& after.candidates == runtime::refreshed(after).candidates
        }),
{
}

/// A bot that joins a game under way on the hub sees what the hub knows of it: the board, whose turn it is,
/// its own colour and the time for a move. A bot that only watches has no colour.
pub proof fn law_bot_that_joins_sees_the_game(
    m: model::HubModel,
    i: int,
    id: u64,
    name: Seq<char>,
    bot: RuntimeModel,
    turn: Piece,
)
    requires
        is_sound(m),
        hub_play_laws::is_room(m, i, name),
        rules::is_cells(m.rooms[i].cells),
        m.rooms[i].started,
        m.rooms[i].player_turn == Some(turn),
        m.rooms[i].initial_history is None,
        model::join_answer(m, id, name) matches Ok(answer) && answer.success,
    ensures
        ({
            let answer = model::join_answer(m, id, name)->Ok_0;
            let entered = runtime::entered(bot, answer, name);
            let kind = model::joins_as(m.rooms[i], id);
            &&& entered.1 is None
            &&& entered.0.cells == m.rooms[i].cells
            &&& entered.0.player_turn == Some(turn)
            &&& entered.0.move_time_seconds == Some(m.rooms[i].move_time_seconds)
            &&& entered.0.room_name == Some(name)
            &&& kind matches model::MemberKind::Player(color) ==> entered.0.my_color == Some(color)
            &&& kind == model::MemberKind::Observer ==> entered.0.my_color is None
        }),
{
    hub_laws::lemma_room_place(m.rooms, name, 0);
    let k = model::room_place(m.rooms, name, 0)->0;
    if k < i {
        assert(m.rooms[k].name != m.rooms[i].name);
    } else if i < k {
        assert(m.rooms[i].name != m.rooms[k].name);
    }
    runtime::law_grid_round_trip(m.rooms[i].cells);
}

/// What the search scored a cell is shown with it: alone, or added to three times its score for us less
/// its score for the opponent. A cell that it did not score keeps what it had, or what it scores without.
pub proof fn law_search_scores_are_shown(c: CandidateMove, scores: Seq<(Position, i32)>, k: int)
    requires
        0 <= k < scores.len(),
        scores[k].0.row == c.row,
        scores[k].0.column == c.column,
        forall|j: int|
            0 <= j < scores.len() && j != k ==> (#[trigger] scores[j]).0.row != c.row || scores[j].0.column != c.column,
        -100_000_000 <= c.score_self <= 100_000_000,
        -100_000_000 <= c.score_opponent <= 100_000_000,
        -1_000_000_000 <= scores[k].1 <= 1_000_000_000,
    ensures
        ui::with_search(c, scores, false).search_score == Some(scores[k].1),
        ui::with_search(c, scores, true).search_score matches Some(v) && v == 3 * c.score_self - c.score_opponent
            + scores[k].1,
        ui::with_search(c, scores, false).score_self == c.score_self,
        ui::with_search(c, scores, false).score_opponent == c.score_opponent,
        ui::with_search(c, scores, true).score_self == c.score_self,
        ui::with_search(c, scores, true).score_opponent == c.score_opponent,
{
    lemma_found(scores, c.row, c.column, k);
}

proof fn lemma_found(scores: Seq<(Position, i32)>, row: usize, column: usize, k: int)
    requires
        0 <= k < scores.len(),
        scores[k].0.row == row,
        scores[k].0.column == column,
        forall|j: int|
            0 <= j < scores.len() && j != k ==> (#[trigger] scores[j]).0.row != row || scores[j].0.column != column,
    ensures
        ui::found_score(scores, row, column) == Some(scores[k].1),
    decreases scores.len(),
{
    let before = scores.drop_last();
    if k < before.len() {
        assert forall|j: int| 0 <= j < before.len() && j != k implies (#[trigger] before[j]).0.row != row
            || before[j].0.column != column by {
            assert(scores[j] == before[j]);
        }
        lemma_found(before, row, column, k);
    } else {
        assert forall|j: int| 0 <= j < before.len() implies (#[trigger] before[j]).0.row != row || before[j].0.column
            != column by {
            assert(scores[j] == before[j]);
        }
        lemma_not_found(before, row, column);
    }
}

proof fn lemma_not_found(scores: Seq<(Position, i32)>, row: usize, column: usize)
    requires
        forall|j: int|
            0 <= j < scores.len() ==> (#[trigger] scores[j]).0.row != row || scores[j].0.column != column,
    ensures
        ui::found_score(scores, row, column) is None,
    decreases scores.len(),
{
    if scores.len() > 0 {
        let before = scores.drop_last();
        assert forall|j: int| 0 <= j < before.len() implies (#[trigger] before[j]).0.row != row || before[j].0.column
            != column by {
            assert(scores[j] == before[j]);
        }
        lemma_not_found(before, row, column);
        assert(scores[scores.len() - 1] == scores.last());
    }
}

/// A cell that the search did not score keeps its score of the search, or shows what it scores without.
pub proof fn law_other_cells_keep_their_scores(c: CandidateMove, scores: Seq<(Position, i32)>)
    requires
        forall|j: int|
            0 <= j < scores.len() ==> (#[trigger] scores[j]).0.row != c.row || scores[j].0.column != c.column,
        -100_000_000 <= c.score_self <= 100_000_000,
        -100_000_000 <= c.score_opponent <= 100_000_000,
    ensures
        ui::with_search(c, scores, false) == c,
        ui::with_search(c, scores, true).search_score matches Some(v) && v == 3 * c.score_self - c.score_opponent,
{
    lemma_not_found(scores, c.row, c.column);
}

/// A scale is 1, or the score of a candidate.
pub proof fn law_scales_are_scores(cs: Seq<CandidateMove>)
    ensures
        ui::scale_self(cs) == 1 || exists|i: int|
            0 <= i < cs.len() && (#[trigger] cs[i]).score_self == ui::scale_self(cs),
        ui::scale_opponent(cs) == 1 || exists|i: int|
            0 <= i < cs.len() && (#[trigger] cs[i]).score_opponent == ui::scale_opponent(cs),
    decreases cs.len(),
{
    if cs.len() > 0 {
        let before = cs.drop_last();
        law_scales_are_scores(before);
        assert(cs[cs.len() - 1] == cs.last());
        if ui::scale_self(before) != 1 {
            let i = choose|i: int| 0 <= i < before.len() && (#[trigger] before[i]).score_self == ui::scale_self(before);
            assert(cs[i] == before[i]);
        }
        if ui::scale_opponent(before) != 1 {
            let i = choose|i: int|
                0 <= i < before.len() && (#[trigger] before[i]).score_opponent == ui::scale_opponent(before);
            assert(cs[i] == before[i]);
        }
    }
}

/// The ends of the range of the search's scores are scores of candidates.
pub proof fn law_range_ends_are_scores(cs: Seq<CandidateMove>)
    ensures
        ui::range_of(cs) matches Some(r) ==> {
            &&& exists|i: int| 0 <= i < cs.len() && (#[trigger] cs[i]).search_score == Some(r.0)
            &&& exists|i: int| 0 <= i < cs.len() && (#[trigger] cs[i]).search_score == Some(r.1)
        },
    decreases cs.len(),
{
    if cs.len() > 0 {
        let before = cs.drop_last();
        law_range_ends_are_scores(before);
        assert(cs[cs.len() - 1] == cs.last());
        if let Some(r) = ui::range_of(before) {
            let i = choose|i: int| 0 <= i < before.len() && (#[trigger] before[i]).search_score == Some(r.0);
            assert(cs[i] == before[i]);
            let j = choose|j: int| 0 <= j < before.len() && (#[trigger] before[j]).search_score == Some(r.1);
            assert(cs[j] == before[j]);
        }
    }
}

/// Two of the users play.
pub open spec fn two_users_play(users: Seq<User>, j: int, k: int) -> bool {
    &&& 0 <= j < k < users.len()
    &&& users[j].role == Role::Player
    &&& users[k].role == Role::Player
}

/// There are two players just where two users play and nobody else does.
pub proof fn law_two_players_are_two(users: Seq<User>)
    ensures
        runtime::players(users) == 2 ==> exists|j: int, k: int| #[trigger]
            two_users_play(users, j, k) && forall|i: int|
                0 <= i < users.len() && i != j && i != k ==> (#[trigger] users[i]).role != Role::Player,
        runtime::players(users) == 1 ==> exists|j: int|
            0 <= j < users.len() && (#[trigger] users[j]).role == Role::Player && forall|i: int|
                0 <= i < users.len() && i != j ==> (#[trigger] users[i]).role != Role::Player,
        runtime::players(users) == 0 ==> forall|i: int|
            0 <= i < users.len() ==> (#[trigger] users[i]).role != Role::Player,
        forall|i: int| 0 <= i < users.len() && (#[trigger] users[i]).role == Role::Player ==> runtime::players(users) >= 1,
    decreases users.len(),
{
    if users.len() > 0 {
        let before = users.drop_last();
        let n = before.len() as int;
        law_two_players_are_two(before);
        assert forall|i: int| 0 <= i < n implies users[i] == #[trigger] before[i] by {}
        assert(users[n] == users.last());
        if users.last().role == Role::Player {
            if runtime::players(users) == 2 {
                let j = choose|j: int|
                    0 <= j < before.len() && (#[trigger] before[j]).role == Role::Player && forall|i: int|
                        0 <= i < before.len() && i != j ==> (#[trigger] before[i]).role != Role::Player;
                assert(two_users_play(users, j, n));
                assert forall|i: int| 0 <= i < users.len() && i != j && i != n implies (#[trigger] users[i]).role
                    != Role::Player by {
                    assert(before[i].role != Role::Player);
                }
            }
            if runtime::players(users) == 1 {
                assert forall|i: int| 0 <= i < users.len() && i != n implies (#[trigger] users[i]).role != Role::Player by {
                    assert(before[i].role != Role::Player);
                }
            }
        } else {
            if runtime::players(users) == 2 {
                let (j, k) = choose|j: int, k: int| #[trigger]
                    two_users_play(before, j, k) && forall|i: int|
                        0 <= i < before.len() && i != j && i != k ==> (#[trigger] before[i]).role != Role::Player;
                assert(two_users_play(users, j, k));
                assert forall|i: int| 0 <= i < users.len() && i != j && i != k implies (#[trigger] users[i]).role
                    != Role::Player by {
                    if i < n {
                        assert(before[i].role != Role::Player);
                    }
                }
            }
            if runtime::players(users) == 1 {
                let j = choose|j: int|
                    0 <= j < before.len() && (#[trigger] before[j]).role == Role::Player && forall|i: int|
                        0 <= i < before.len() && i != j ==> (#[trigger] before[i]).role != Role::Player;
                assert(users[j].role == Role::Player);
                assert forall|i: int| 0 <= i < users.len() && i != j implies (#[trigger] users[i]).role
                    != Role::Player by {
                    if i < n {
                        assert(before[i].role != Role::Player);
                    }
                }
            }
            if runtime::players(users) == 0 {
                assert forall|i: int| 0 <= i < users.len() implies (#[trigger] users[i]).role != Role::Player by {
                    if i < n {
                        assert(before[i].role != Role::Player);
                    }
                }
            }
        }
        assert forall|i: int| 0 <= i < users.len() && (#[trigger] users[i]).role == Role::Player implies runtime::players(
            users,
        ) >= 1 by {
            if i < n {
                assert(before[i].role == Role::Player);
            }
        }
    }
}

/// The reply that a bot expects is a candidate on which the opponent scores most.
pub proof fn law_expected_reply_scores_most(s: rules::Cells, my_color: Piece)
    requires
        rules::is_cells(s),
        rules::stones(s) < 324,
    ensures
        ({
            let p = selection::expected_reply(s, my_color);
            let opponent = if my_color == Piece::Black {
                Piece::White
            } else {
                Piece::Black
            };
            &&& rules::candidates(s).contains(p)
            &&& forall|q: Position| #[trigger]
                rules::candidates(s).contains(q) ==> rules::score(s, q, opponent) <= rules::score(s, p, opponent)
        }),
{
    laws::law_candidates_until_full(s);
    strategy::choice_laws::lemma_last_best_is_best(
        rules::candidates(s),
        strategy::by_attack(s, rules::other(my_color)),
    );
}

/// The name of a win holds the name of its colour, and not that of the other.
pub proof fn law_results_name_their_winner()
    ensures
        ui::named_winner(runtime::state_text(GameState::BlackWin)) == Some(Piece::Black),
        ui::named_winner(runtime::state_text(GameState::WhiteWin)) == Some(Piece::White),
        ui::named_winner(runtime::state_text(GameState::Draw)) is None,
        ui::named_winner(runtime::state_text(GameState::NoWin)) is None,
{
    reveal_strlit("Black");
    reveal_strlit("White");
    reveal_strlit("BlackWin");
    reveal_strlit("WhiteWin");
    reveal_strlit("Draw");
    reveal_strlit("NoWin");
    assert("Black"@ =~= seq!['B', 'l', 'a', 'c', 'k']);
    assert("White"@ =~= seq!['W', 'h', 'i', 't', 'e']);
    assert("BlackWin"@ =~= seq!['B', 'l', 'a', 'c', 'k', 'W', 'i', 'n']);
    assert("WhiteWin"@ =~= seq!['W', 'h', 'i', 't', 'e', 'W', 'i', 'n']);
    assert("Draw"@ =~= seq!['D', 'r', 'a', 'w']);
    assert("NoWin"@ =~= seq!['N', 'o', 'W', 'i', 'n']);
    lemma_begins_with("BlackWin"@, "Black"@);
    lemma_begins_with("WhiteWin"@, "White"@);
    lemma_no_part("WhiteWin"@, "Black"@, 'B');
    lemma_no_part("NoWin"@, "Black"@, 'B');
    assert("NoWin"@.subrange(0, 5) =~= "NoWin"@);
    assert("NoWin"@[0] != "White"@[0]);
    assert forall|i: int| 0 <= i <= 0 implies #[trigger] "NoWin"@.subrange(i, i + 5) != "White"@ by {
        assert("NoWin"@.subrange(i, i + 5)[0] == 'N');
    }
}

/// A text holds what it begins with.
proof fn lemma_begins_with(s: Seq<char>, part: Seq<char>)
    requires
        part.len() <= s.len(),
        forall|i: int| 0 <= i < part.len() ==> #[trigger] s[i] == part[i],
    ensures
        text::has_part(s, part),
{
    let i: int = 0;
    assert(s.subrange(i, i + part.len()) =~= part);
}

/// A text without the first letter of a part does not hold the part.
proof fn lemma_no_part(s: Seq<char>, part: Seq<char>, first: char)
    requires
        part.len() > 0,
        part[0] == first,
        forall|i: int| 0 <= i < s.len() ==> #[trigger] s[i] != first,
    ensures
        !text::has_part(s, part),
{
    assert forall|i: int| 0 <= i <= s.len() - part.len() implies #[trigger] s.subrange(i, i + part.len()) != part by {
        assert(s.subrange(i, i + part.len())[0] == s[i]);
    }
}

} // verus!
