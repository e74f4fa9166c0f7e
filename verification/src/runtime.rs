//! What a bot knows of its game, and how that changes as the hub tells it news.
use vstd::prelude::*;

use crate::board::{Board, BoardError, Move, Piece, Position};
use crate::config::StrategyChoice;
use crate::engine::DecisionPlan;
use crate::game::{GameSnapshot, SessionContext};
use crate::history;
use crate::history::HistoryError;
use crate::hub_model;
use crate::protocol;
use crate::protocol::{ClientCommand, GameState, JoinRoomResponse, Role, User};
use crate::rules;
use crate::selection;
use crate::ui;
use crate::ui::{CandidateMove, GamePhase, LastDecision};

verus! {

broadcast use crate::board::board_has_every_cell;

/// What a bot knows of its game.
#[derive(Debug)]
pub struct RuntimeState {
    pub session: SessionContext,
    pub my_color: Option<Piece>,
    pub player_turn: Option<Piece>,
    pub board: Board,
    pub candidates: Vec<CandidateMove>,
    pub game_phase: GamePhase,
    pub game_result: Option<String>,
    pub turn_started_at_ms: Option<u64>,
    pub last_decision: Option<LastDecision>,
    pub initial_board_moves_history: Option<String>,
    pub merge_candidate_scores: bool,
    pub move_history: Vec<Move>,
    pub initial_move_count: usize,
}

/// What a bot knows of its game, as plain text and values.
#[verifier::ext_equal]
pub struct RuntimeModel {
    pub room_name: Option<Seq<char>>,
    pub is_room_owner: bool,
    pub move_time_seconds: Option<u32>,
    pub my_color: Option<Piece>,
    pub player_turn: Option<Piece>,
    pub cells: rules::Cells,
    pub candidates: Seq<CandidateMove>,
    pub game_phase: GamePhase,
    pub game_result: Option<Seq<char>>,
    pub turn_started_at_ms: Option<u64>,
    pub last_decision: Option<ui::DecisionModel>,
    pub initial_board_moves_history: Option<Seq<char>>,
    pub merge_candidate_scores: bool,
    pub move_history: Seq<Move>,
    pub initial_move_count: int,
}

/// What a decision is.
pub open spec fn decision_of(d: Option<LastDecision>) -> Option<ui::DecisionModel> {
    match d {
        Some(x) => Some(x@),
        None => None,
    }
}

impl View for RuntimeState {
    type V = RuntimeModel;

    open spec fn view(&self) -> RuntimeModel {
        RuntimeModel {
            room_name: protocol::text_of(self.session.room_name),
            is_room_owner: self.session.is_room_owner,
            move_time_seconds: self.session.move_time_seconds,
            my_color: self.my_color,
            player_turn: self.player_turn,
            cells: self.board@,
            candidates: self.candidates@,
            game_phase: self.game_phase,
            game_result: protocol::text_of(self.game_result),
            turn_started_at_ms: self.turn_started_at_ms,
            last_decision: decision_of(self.last_decision),
            initial_board_moves_history: protocol::text_of(self.initial_board_moves_history),
            merge_candidate_scores: self.merge_candidate_scores,
            move_history: self.move_history@,
            initial_move_count: self.initial_move_count as int,
        }
    }
}

/// What a bot knows before it has joined a room.
pub open spec fn outside(is_room_owner: bool, move_time_seconds: u32, strategy: StrategyChoice) -> RuntimeModel {
    RuntimeModel {
        room_name: None,
        is_room_owner,
        move_time_seconds: Some(move_time_seconds),
        my_color: None,
        player_turn: None,
        cells: rules::empty_cells(),
        candidates: Seq::empty(),
        game_phase: GamePhase::Lobby,
        game_result: None,
        turn_started_at_ms: None,
        last_decision: None,
        initial_board_moves_history: None,
        merge_candidate_scores: strategy == StrategyChoice::Adaptive,
        move_history: Seq::empty(),
        initial_move_count: 0,
    }
}

/// The candidates of a position, scored as the strategy needs them; none without a colour of ours.
pub open spec fn fresh_candidates(cells: rules::Cells, my_color: Option<Piece>, merge: bool) -> Seq<CandidateMove> {
    let plain = match my_color {
        Some(color) => ui::scored_candidates(cells, color),
        None => Seq::empty(),
    };
    if merge {
        ui::all_with_search(plain, Seq::empty(), true)
    } else {
        plain
    }
}

/// The candidates made up to date.
pub open spec fn refreshed(m: RuntimeModel) -> RuntimeModel {
    RuntimeModel { candidates: fresh_candidates(m.cells, m.my_color, m.merge_candidate_scores), ..m }
}

/// Why a bot cannot go on.
#[derive(Debug, PartialEq, Eq)]
pub enum RuntimeError {
    /// The hub let the bot in, but told it nothing of the room.
    NoRoomData,
    /// The initial board cannot be read.
    InitialBoard(HistoryError),
    /// The hub told of a move that cannot be made.
    Move(BoardError),
    /// The bot is in no room.
    NoRoomName,
}

/// Why a bot cannot go on, as plain text and values.
pub enum RuntimeFault {
    NoRoomData,
    InitialBoard(history::Fault),
    Move(BoardError),
    NoRoomName,
}

impl RuntimeError {
    pub open spec fn fault(self) -> RuntimeFault {
        match self {
            RuntimeError::NoRoomData => RuntimeFault::NoRoomData,
            RuntimeError::InitialBoard(e) => RuntimeFault::InitialBoard(e.fault()),
            RuntimeError::Move(e) => RuntimeFault::Move(e),
            RuntimeError::NoRoomName => RuntimeFault::NoRoomName,
        }
    }

    /// The error in words.
    pub fn message(&self) -> (r: String)
        ensures
            r@ == (match *self {
                RuntimeError::NoRoomData => "join response missing room data"@,
                RuntimeError::InitialBoard(e) => e.message_spec(),
                RuntimeError::Move(_) => "failed to apply move"@,
                RuntimeError::NoRoomName => "room name not initialized"@,
            }),
    {
        match self {
            RuntimeError::NoRoomData => "join response missing room data".to_owned(),
            RuntimeError::InitialBoard(e) => e.message(),
            RuntimeError::Move(_) => "failed to apply move".to_owned(),
            RuntimeError::NoRoomName => "room name not initialized".to_owned(),
        }
    }
}

/// The cell of a grid; nothing lies outside it.
pub open spec fn grid_at(grid: Seq<Seq<Option<Piece>>>, r: int, c: int) -> Option<Piece> {
    if 0 <= r < grid.len() && 0 <= c < grid[r].len() {
        grid[r][c]
    } else {
        None
    }
}

/// The board with the stones of a grid; what of it lies off the board does not count.
pub open spec fn cells_of_grid(grid: Seq<Seq<Option<Piece>>>) -> rules::Cells {
    Seq::new(324, |n: int| grid_at(grid, n / 18, n % 18))
}

/// The stones of the first `row` rows, and of the first `column` cells of the next.
spec fn upto(grid: Seq<Seq<Option<Piece>>>, row: int, column: int) -> rules::Cells {
    Seq::new(
        324,
        |n: int|
            if n / 18 < row || n / 18 == row && n % 18 < column {
                grid_at(grid, n / 18, n % 18)
            } else {
                None
            },
    )
}

/// One more cell of a grid.
proof fn lemma_upto_step(grid: Seq<Seq<Option<Piece>>>, row: int, column: int)
    requires
        0 <= row < grid.len(),
        0 <= column < grid[row].len(),
    ensures
        row < 18 && column < 18 ==> upto(grid, row, column + 1) == upto(grid, row, column).update(
            18 * row + column,
            grid_at(grid, row, column),
        ) && upto(grid, row, column)[18 * row + column] is None,
        !(row < 18 && column < 18) ==> upto(grid, row, column + 1) == upto(grid, row, column),
{
    if row < 18 && column < 18 {
        assert((18 * row + column) / 18 == row && (18 * row + column) % 18 == column);
        assert forall|n: int| 0 <= n < 324 && n != 18 * row + column implies #[trigger] upto(grid, row, column + 1)[n]
            == upto(grid, row, column)[n] by {
            assert(18 * (n / 18) + n % 18 == n);
        }
        assert(upto(grid, row, column + 1) =~= upto(grid, row, column).update(
            18 * row + column,
            grid_at(grid, row, column),
        ));
    } else {
        assert(upto(grid, row, column + 1) =~= upto(grid, row, column));
    }
}

/// The board with the stones of `grid`.
pub fn board_from_grid(grid: &Vec<Vec<Option<Piece>>>) -> (r: Board)
    ensures
        r@ == cells_of_grid(protocol::grid_view(grid@)),
        r.hash_matches(),
{
    let ghost rows = protocol::grid_view(grid@);
    let mut board = Board::new();
    let mut row: usize = 0;
    assert(board@ =~= upto(rows, 0, 0));
    while row < grid.len()
        invariant
            row <= grid@.len(),
            rows == protocol::grid_view(grid@),
            board@ == upto(rows, row as int, 0),
            board.hash_matches(),
        decreases grid@.len() - row,
    {
        let cells = &grid[row];
        let mut column: usize = 0;
        assert(rows[row as int] == cells@);
        while column < cells.len()
            invariant
                row < grid@.len(),
                rows == protocol::grid_view(grid@),
                rows[row as int] == cells@,
                column <= cells@.len(),
                board@ == upto(rows, row as int, column as int),
                board.hash_matches(),
            decreases cells@.len() - column,
        {
            proof {
                lemma_upto_step(rows, row as int, column as int);
            }
            if let Some(piece) = cells[column] {
                let _ = board.place(Position::new(row, column), piece);
            }
            assert(board@ =~= upto(rows, row as int, column + 1));
            column = column + 1;
        }
        assert(board@ =~= upto(rows, row + 1, 0));
        row = row + 1;
    }
    assert(board@ =~= cells_of_grid(rows));
    board
}

/// What the hub tells someone who joins is what they see: the grid of a board is the board.
pub proof fn law_grid_round_trip(s: rules::Cells)
    requires
        rules::is_cells(s),
    ensures
        cells_of_grid(protocol::grid_of(s)) == s,
{
    assert forall|n: int| 0 <= n < 324 implies #[trigger] cells_of_grid(protocol::grid_of(s))[n] == s[n] by {
        assert(18 * (n / 18) + n % 18 == n);
    }
    assert(cells_of_grid(protocol::grid_of(s)) =~= s);
}

/// What an initial board changes, or what is wrong with it.
pub open spec fn preloaded(m: RuntimeModel, moves_history: Seq<char>) -> Result<RuntimeModel, RuntimeFault> {
    match history::read_initial(moves_history) {
        Err(fault) => Err(RuntimeFault::InitialBoard(fault)),
        Ok(moves) => match history::replayed(moves) {
            Err(e) => Err(
                RuntimeFault::InitialBoard((history::HistoryProblem::Move(e), Seq::<char>::empty())),
            ),
            Ok(s) => Ok(
                RuntimeModel {
                    cells: s,
                    player_turn: Some(history::turn_by_count(rules::stones(s))),
                    move_history: moves,
                    initial_move_count: moves.len() as int,
                    ..m
                },
            ),
        },
    }
}

/// What the hub tells of the room.
pub open spec fn informed(m: RuntimeModel, data: protocol::JoinedModel) -> RuntimeModel {
    RuntimeModel {
        my_color: match data.user.game_info {
            Some(info) => Some(info.color),
            None => None,
        },
        move_time_seconds: Some(data.lobby_data.move_time_seconds),
        initial_board_moves_history: data.lobby_data.initial_board_moves_history,
        ..m
    }
}

/// A game under way goes before an initial board.
pub open spec fn caught_up(m: RuntimeModel, game: Option<protocol::GameModel>) -> RuntimeModel {
    refreshed(
        match game {
            Some(g) => RuntimeModel { player_turn: Some(g.player_turn), cells: cells_of_grid(g.grid), ..m },
            None => m,
        },
    )
}

/// What a bot knows after it has joined a room, and what is wrong, if anything.
pub open spec fn entered(m: RuntimeModel, response: protocol::JoinModel, room_name: Seq<char>) -> (
    RuntimeModel,
    Option<RuntimeFault>,
) {
    let named = RuntimeModel { room_name: Some(room_name), ..m };
    match response.data {
        None => (named, Some(RuntimeFault::NoRoomData)),
        Some(data) => {
            let told = informed(named, data);
            match data.lobby_data.initial_board_moves_history {
                None => (caught_up(told, data.game_data), None),
                Some(moves_history) => match preloaded(told, moves_history) {
                    Err(fault) => (told, Some(fault)),
                    Ok(loaded) => (caught_up(loaded, data.game_data), None),
                },
            }
        },
    }
}

/// What a move changes.
pub open spec fn moved(m: RuntimeModel, mv: Move, now: u64) -> RuntimeModel {
    refreshed(
        RuntimeModel {
            cells: rules::put(m.cells, Position { row: mv.row, column: mv.column }, mv.color),
            move_history: m.move_history.push(mv),
            player_turn: Some(rules::other(mv.color)),
            turn_started_at_ms: Some(now),
            ..m
        },
    )
}

/// What is wrong with a move.
pub open spec fn move_fault(s: rules::Cells, mv: Move) -> Option<BoardError> {
    let p = Position { row: mv.row, column: mv.column };
    if !rules::on_board(mv.row as int, mv.column as int) {
        Some(BoardError::OutOfBounds(p))
    } else if rules::at(s, mv.row as int, mv.column as int) is Some {
        Some(BoardError::Occupied(p))
    } else {
        None
    }
}

/// The game is over.
pub open spec fn ended(m: RuntimeModel, result: Seq<char>) -> RuntimeModel {
    RuntimeModel { game_phase: GamePhase::GameOver, game_result: Some(result), turn_started_at_ms: None, ..m }
}

/// How many of the users play.
pub open spec fn players(users: Seq<User>) -> nat
    decreases users.len(),
{
    if users.len() == 0 {
        0
    } else {
        players(users.drop_last()) + (if users.last().role == Role::Player {
            1nat
        } else {
            0
        })
    }
}

/// A turn of ours: the game, the time of a turn, and for how long to search.
#[derive(Debug)]
pub struct Turn {
    pub snapshot: GameSnapshot,
    pub move_time_ms: u64,
    pub search_ms: u64,
}

/// The name of a way in which a game stands.
pub open spec fn state_text(state: GameState) -> Seq<char> {
    match state {
        GameState::NoWin => "NoWin"@,
        GameState::BlackWin => "BlackWin"@,
        GameState::WhiteWin => "WhiteWin"@,
        GameState::Draw => "Draw"@,
        GameState::BlackDisqualified => "BlackDisqualified"@,
        GameState::WhiteDisqualified => "WhiteDisqualified"@,
    }
}

/// The name of the way in which a game ended; "Unknown" where the hub did not tell.
pub fn result_name(state: Option<GameState>) -> (r: String)
    ensures
        r@ == (match state {
            Some(s) => state_text(s),
            None => "Unknown"@,
        }),
{
    match state {
        Some(GameState::NoWin) => "NoWin".to_owned(),
        Some(GameState::BlackWin) => "BlackWin".to_owned(),
        Some(GameState::WhiteWin) => "WhiteWin".to_owned(),
        Some(GameState::Draw) => "Draw".to_owned(),
        Some(GameState::BlackDisqualified) => "BlackDisqualified".to_owned(),
        Some(GameState::WhiteDisqualified) => "WhiteDisqualified".to_owned(),
        None => "Unknown".to_owned(),
    }
}

impl RuntimeState {
    /// The hash of the board is that of its stones.
    pub open spec fn is_sound(self) -> bool {
        self.board.hash_matches()
    }

    /// What a bot knows before it has joined a room.
    pub fn new(is_room_owner: bool, default_move_time_seconds: u32, strategy: StrategyChoice) -> (r: Self)
        ensures
            r@ == outside(is_room_owner, default_move_time_seconds, strategy),
            r.is_sound(),
    {
        let mut session = SessionContext::new(is_room_owner);
        session.move_time_seconds = Some(default_move_time_seconds);
        let r = Self {
            session,
            my_color: None,
            player_turn: None,
            board: Board::new(),
            candidates: Vec::new(),
            game_phase: GamePhase::Lobby,
            game_result: None,
            turn_started_at_ms: None,
            last_decision: None,
            initial_board_moves_history: None,
            merge_candidate_scores: strategy == StrategyChoice::Adaptive,
            move_history: Vec::new(),
            initial_move_count: 0,
        };
        assert(r@ =~= outside(is_room_owner, default_move_time_seconds, strategy));
        r
    }

    /// Makes the candidates up to date.
    pub fn refresh_candidates(&mut self)
        ensures
            final(self)@ == refreshed(old(self)@),
            old(self).is_sound() ==> final(self).is_sound(),
    {
        self.candidates = match self.my_color {
            Some(color) => ui::compute_candidates(&self.board, color),
            None => Vec::new(),
        };
        if self.merge_candidate_scores {
            let none: Vec<(Position, i32)> = Vec::new();
            assert(none@ =~= Seq::<(Position, i32)>::empty());
            ui::update_candidates_with_search_scores(&mut self.candidates, none.as_slice(), true);
        }
        assert(self@ =~= refreshed(old(self)@));
    }

    /// The game, once both colours are known.
    pub fn snapshot(&self) -> (r: Option<GameSnapshot>)
        ensures
            r is Some <==> self.player_turn is Some && self.my_color is Some,
            r matches Some(game) ==> game.board@ == self.board@ && game.board.hash == self.board.hash
                && Some(game.player_turn) == self.player_turn && Some(game.my_color) == self.my_color,
    {
        match (self.player_turn, self.my_color) {
            (Some(turn), Some(color)) => Some(GameSnapshot::new(self.board.clone(), turn, color)),
            _ => None,
        }
    }

    /// Puts an initial board on the board.
    fn preload(&mut self, moves_history: &str) -> (r: Result<(), RuntimeError>)
        ensures
            match r {
                Ok(_) => preloaded(old(self)@, moves_history@) == Ok::<RuntimeModel, RuntimeFault>(final(self)@)
                    && final(self).is_sound(),
                Err(e) => preloaded(old(self)@, moves_history@) == Err::<RuntimeModel, RuntimeFault>(e.fault())
                    && *final(self) == *old(self),
            },
    {
        match history::board_from_moves_history(moves_history) {
            Err(e) => Err(RuntimeError::InitialBoard(e)),
            Ok((board, turn, moves)) => {
                self.board = board;
                self.player_turn = Some(turn);
                self.initial_move_count = moves.len();
                self.move_history = moves;
                assert(preloaded(old(self)@, moves_history@)->Ok_0 =~= self@);
                Ok(())
            },
        }
    }

    /// Joins the room `room_name`, of which the hub told `response`.
    pub fn init_room(&mut self, response: JoinRoomResponse, room_name: String) -> (r: Result<(), RuntimeError>)
        ensures
            final(self)@ == entered(old(self)@, response@, room_name@).0,
            match r {
                Ok(_) => entered(old(self)@, response@, room_name@).1 is None,
                Err(e) => entered(old(self)@, response@, room_name@).1 == Some(e.fault()),
            },
            old(self).is_sound() ==> final(self).is_sound(),
    {
        self.session.room_name = Some(room_name);
        let ghost named = self@;
        assert(named =~= (RuntimeModel { room_name: Some(room_name@), ..old(self)@ }));
        let data = match response.data {
            Some(data) => data,
            None => {
                return Err(RuntimeError::NoRoomData);
            },
        };
        self.my_color = match data.user.game_info {
            Some(info) => Some(info.color),
            None => None,
        };
        self.session.move_time_seconds = Some(data.lobby_data.move_time_seconds);
        self.initial_board_moves_history = protocol::clone_text(&data.lobby_data.initial_board_moves_history);
        let ghost told = self@;
        assert(told =~= informed(named, data@));
        if let Some(moves_history) = &data.lobby_data.initial_board_moves_history {
            match self.preload(moves_history.as_str()) {
                Ok(_) => {},
                Err(e) => {
                    return Err(e);
                },
            }
        }
        let ghost loaded = self@;
        if let Some(game) = data.game_data {
            self.player_turn = Some(game.player_turn);
            self.board = board_from_grid(&game.grid);
            assert(self@ =~= (RuntimeModel {
                player_turn: Some(game.player_turn),
                cells: cells_of_grid(game@.grid),
                ..loaded
            }));
        }
        self.refresh_candidates();
        Ok(())
    }

    /// The hub has made the room.
    pub fn room_created(&mut self, room_name: String)
        ensures
            final(self)@ == (RuntimeModel { room_name: Some(room_name@), ..old(self)@ }),
            old(self).is_sound() ==> final(self).is_sound(),
    {
        self.session.room_name = Some(room_name);
        assert(self@ =~= (RuntimeModel { room_name: Some(room_name@), ..old(self)@ }));
    }

    /// The owner of a room starts the game when there are two players.
    pub fn should_start(&self, users: &Vec<User>) -> (r: bool)
        ensures
            r == (self.session.is_room_owner && players(users@) == 2),
    {
        let mut count: usize = 0;
        let mut i: usize = 0;
        assert(users@.take(0) =~= Seq::<User>::empty());
        while i < users.len()
            invariant
                i <= users@.len(),
                count <= i,
                count == players(users@.take(i as int)),
            decreases users@.len() - i,
        {
            proof {
                let next = users@.take(i + 1);
                assert(next.drop_last() =~= users@.take(i as int));
                assert(next.last() == users@[i as int]);
            }
            if users[i].role == Role::Player {
                count = count + 1;
            }
            i = i + 1;
        }
        assert(users@.take(i as int) =~= users@);
        self.session.is_room_owner && count == 2
    }

    /// The game has begun.
    pub fn game_started(&mut self, player_turn: Piece, now: u64)
        ensures
            final(self)@ == refreshed(
                RuntimeModel {
                    player_turn: Some(player_turn),
                    game_phase: GamePhase::Playing,
                    turn_started_at_ms: Some(now),
                    ..old(self)@
                },
            ),
            old(self).is_sound() ==> final(self).is_sound(),
    {
        self.player_turn = Some(player_turn);
        self.game_phase = GamePhase::Playing;
        self.turn_started_at_ms = Some(now);
        assert(self@ =~= (RuntimeModel {
            player_turn: Some(player_turn),
            game_phase: GamePhase::Playing,
            turn_started_at_ms: Some(now),
            ..old(self)@
        }));
        self.refresh_candidates();
    }

    /// A move has been made. One that cannot be made changes nothing.
    pub fn move_played(&mut self, mv: Move, now: u64) -> (r: Result<(), RuntimeError>)
        ensures
            match r {
                Ok(_) => move_fault(old(self)@.cells, mv) is None && final(self)@ == moved(old(self)@, mv, now),
                Err(e) => *final(self) == *old(self) && e is Move && move_fault(old(self)@.cells, mv) == Some(e->Move_0),
            },
            old(self).is_sound() ==> final(self).is_sound(),
    {
        match self.board.apply_move(mv) {
            Ok(_) => {},
            Err(e) => {
                return Err(RuntimeError::Move(e));
            },
        }
        self.move_history.push(mv);
        self.player_turn = Some(mv.color.opponent());
        self.turn_started_at_ms = Some(now);
        assert(self@ =~= (RuntimeModel {
            cells: rules::put(old(self)@.cells, Position { row: mv.row, column: mv.column }, mv.color),
            move_history: old(self)@.move_history.push(mv),
            player_turn: Some(rules::other(mv.color)),
            turn_started_at_ms: Some(now),
            ..old(self)@
        }));
        self.refresh_candidates();
        Ok(())
    }

    /// The game is over.
    pub fn game_over(&mut self, result: String)
        ensures
            final(self)@ == ended(old(self)@, result@),
            old(self).is_sound() ==> final(self).is_sound(),
    {
        self.game_phase = GamePhase::GameOver;
        self.game_result = Some(result);
        self.turn_started_at_ms = None;
        assert(self@ =~= ended(old(self)@, result@));
    }

    /// A player has been disqualified, which ends the game.
    pub fn player_disqualified(&mut self, username: &str, reason: &str)
        ensures
            final(self)@ == ended(old(self)@, username@ + " disqualified: "@ + reason@),
            old(self).is_sound() ==> final(self).is_sound(),
    {
        let mut result = username.to_owned();
        result.append(" disqualified: ");
        result.append(reason);
        self.game_over(result);
    }

    /// The time of a turn has changed.
    pub fn settings_changed(&mut self, seconds: u32)
        ensures
            final(self)@ == (RuntimeModel { move_time_seconds: Some(seconds), ..old(self)@ }),
            old(self).is_sound() ==> final(self).is_sound(),
    {
        self.session.move_time_seconds = Some(seconds);
        assert(self@ =~= (RuntimeModel { move_time_seconds: Some(seconds), ..old(self)@ }));
    }

    /// The initial board has changed. One that cannot be read changes nothing.
    pub fn initial_board_changed(&mut self, moves_history: String) -> (r: Result<(), RuntimeError>)
        ensures
            match preloaded(old(self)@, moves_history@) {
                Ok(loaded) => r is Ok && final(self)@ == refreshed(
                    RuntimeModel { initial_board_moves_history: Some(moves_history@), ..loaded },
                ),
                Err(fault) => r matches Err(e) && e.fault() == fault && *final(self) == *old(self),
            },
            old(self).is_sound() ==> final(self).is_sound(),
    {
        match self.preload(moves_history.as_str()) {
            Ok(_) => {},
            Err(e) => {
                return Err(e);
            },
        }
        let ghost loaded = self@;
        self.initial_board_moves_history = Some(moves_history);
        assert(self@ =~= (RuntimeModel { initial_board_moves_history: Some(moves_history@), ..loaded }));
        self.refresh_candidates();
        Ok(())
    }

    /// Our turn, if it is: the time of a turn is five seconds where none is set, and a turn of which
    /// nothing is known has just begun.
    pub fn next_turn(&self, now: u64) -> (r: Option<Turn>)
        ensures
            r is Some <==> self.player_turn is Some && self.my_color == self.player_turn,
            r matches Some(turn) ==> {
                &&& turn.snapshot.board@ == self.board@
                &&& turn.snapshot.board.hash == self.board.hash
                &&& Some(turn.snapshot.player_turn) == self.player_turn
                &&& Some(turn.snapshot.my_color) == self.my_color
                &&& turn.move_time_ms == 1000 * (match self.session.move_time_seconds {
                    Some(seconds) => seconds as int,
                    None => 5,
                })
                &&& turn.search_ms == selection::budget(
                    turn.move_time_ms as int,
                    match self.turn_started_at_ms {
                        Some(begun) => selection::less(now as int, begun as int),
                        None => 0,
                    },
                )
            },
    {
        let snapshot = match self.snapshot() {
            Some(snapshot) => snapshot,
            None => {
                return None;
            },
        };
        if !snapshot.is_my_turn() {
            return None;
        }
        let seconds: u32 = match self.session.move_time_seconds {
            Some(seconds) => seconds,
            None => 5,
        };
        let move_time_ms: u64 = seconds as u64 * 1000;
        let elapsed_ms: u64 = match self.turn_started_at_ms {
            Some(begun) => if now < begun {
                0
            } else {
                now - begun
            },
            None => 0,
        };
        let search_ms = selection::search_budget(move_time_ms, elapsed_ms);
        Some(Turn { snapshot, move_time_ms, search_ms })
    }

    /// The search has come to `depth`: shows what it has found.
    pub fn depth_reached(
        &mut self,
        position: Position,
        score: i32,
        reason: String,
        depth: usize,
        scores: &[(Position, i32)],
    )
        ensures
            final(self)@ == (RuntimeModel {
                last_decision: Some(ui::searched(position, score, reason@, depth)),
                candidates: ui::all_with_search(
                    old(self)@.candidates,
                    scores@,
                    old(self)@.merge_candidate_scores,
                ),
                ..old(self)@
            }),
            old(self).is_sound() ==> final(self).is_sound(),
    {
        self.last_decision = Some(LastDecision::at_depth(position, score, reason, depth));
        let merge = self.merge_candidate_scores;
        ui::update_candidates_with_search_scores(&mut self.candidates, scores, merge);
        assert(self@ =~= (RuntimeModel {
            last_decision: Some(ui::searched(position, score, reason@, depth)),
            candidates: ui::all_with_search(old(self)@.candidates, scores@, old(self)@.merge_candidate_scores),
            ..old(self)@
        }));
    }

    /// The search in the opponent's turn has found `scores`.
    pub fn pondered(&mut self, scores: &[(Position, i32)])
        ensures
            final(self)@ == (RuntimeModel {
                candidates: ui::all_with_search(
                    old(self)@.candidates,
                    scores@,
                    old(self)@.merge_candidate_scores,
                ),
                ..old(self)@
            }),
            old(self).is_sound() ==> final(self).is_sound(),
    {
        let merge = self.merge_candidate_scores;
        ui::update_candidates_with_search_scores(&mut self.candidates, scores, merge);
        assert(self@ =~= (RuntimeModel {
            candidates: ui::all_with_search(old(self)@.candidates, scores@, old(self)@.merge_candidate_scores),
            ..old(self)@
        }));
    }

    /// The bot has decided on a plan.
    pub fn plan_chosen(&mut self, plan: &DecisionPlan)
        ensures
            final(self)@ == (RuntimeModel { last_decision: Some(ui::decided(*plan)), ..old(self)@ }),
            old(self).is_sound() ==> final(self).is_sound(),
    {
        self.last_decision = Some(LastDecision::of_plan(plan));
        assert(self@ =~= (RuntimeModel { last_decision: Some(ui::decided(*plan)), ..old(self)@ }));
    }

    /// The room that the bot is in.
    pub fn current_room_name(&self) -> (r: Result<String, RuntimeError>)
        ensures
            match r {
                Ok(name) => self@.room_name == Some(name@),
                Err(e) => self@.room_name is None && e is NoRoomName,
            },
    {
        match &self.session.room_name {
            Some(name) => Ok(name.clone()),
            None => Err(RuntimeError::NoRoomName),
        }
    }
}

/// A bot that has been told of every move knows the board: if the moves that it knows make its
/// board, they still do after one more.
pub proof fn law_moves_make_the_board(m: RuntimeModel, mv: Move, now: u64)
    requires
        rules::is_cells(m.cells),
        history::replayed(m.move_history) == Ok::<rules::Cells, BoardError>(m.cells),
        move_fault(m.cells, mv) is None,
    ensures
        history::replayed(moved(m, mv, now).move_history) == Ok::<rules::Cells, BoardError>(moved(m, mv, now).cells),
{
    let after = m.move_history.push(mv);
    assert(after.drop_last() =~= m.move_history);
    assert(after.last() == mv);
}

/// An initial board is the board that its moves make.
pub proof fn law_initial_moves_make_the_board(m: RuntimeModel, moves_history: Seq<char>)
    ensures
        preloaded(m, moves_history) matches Ok(loaded) ==> history::replayed(loaded.move_history) == Ok::<
            rules::Cells,
            BoardError,
        >(loaded.cells) && loaded.initial_move_count == loaded.move_history.len(),
{
}

/// A bot that sees the board of the hub still does after a move that the hub accepts, and both know
/// whose turn it is then.
pub proof fn law_bot_follows_the_hub(
    m: RuntimeModel,
    now: u64,
    hub: hub_model::HubModel,
    i: int,
    room: hub_model::RoomModel,
    name: Seq<char>,
    mv: Move,
    at: u128,
    date: Seq<char>,
)
    requires
        rules::is_cells(room.cells),
        m.cells == room.cells,
        0 <= i < hub.rooms.len(),
        rules::is_free(room.cells, Position { row: mv.row, column: mv.column }),
    ensures
        ({
            let after = hub_model::legal_move(hub, i, room, name, mv, at, date).hub.rooms[i];
            &&& move_fault(m.cells, mv) is None
            &&& moved(m, mv, now).cells == after.cells
            &&& moved(m, mv, now).player_turn == after.player_turn
        }),
{
}

/// The command that plays the move of a plan.
pub fn play_command(room_name: String, plan: &DecisionPlan) -> (r: ClientCommand)
    ensures
        r == (ClientCommand::PlayMove { room_name, row: plan.position.row, column: plan.position.column }),
{
    ClientCommand::PlayMove { room_name, row: plan.position.row, column: plan.position.column }
}

} // verus!
