//! The game state machine: players, turn, board, move count, winner and
//! deadline, with the transitions `init` and `play` and the queries on them.
use vstd::prelude::*;

use crate::board::{
    cell, count_filled, count_marked, decode, is_valid_grid, lemma_count_marked, filled_count, filled_upto, has_line, index_of, is_empty_cell, line_of,
    mark_cell, marked, marks, valid_grid, Mark, EMPTY_CELL, MARK_A, MARK_B,
};
use crate::{Address, GameError};

verus! {

/// The state of one game once its players are known.
#[derive(Clone, Copy, Debug, PartialEq, Eq, Structural)]
pub struct GameState {
    pub player_a: Address,
    pub player_b: Address,
    /// The player whose move is awaited.
    pub turn: Address,
    /// The packed board (see `board`).
    pub grid: u32,
    /// Moves accepted so far.
    pub moves: u32,
    pub winner: Option<Address>,
    /// Absolute ledger time from which the game counts as ended.
    pub expiration: u64,
}

/// The winner that the marks on a board designate.
pub open spec fn line_winner(player_a: Address, player_b: Address, grid: u32) -> Option<Address> {
    if has_line(grid, MARK_B) {
        Some(player_b)
    } else if has_line(grid, MARK_A) {
        Some(player_a)
    } else {
        None
    }
}

/// A game as `init` creates it.
pub open spec fn new_game(player_a: Address, player_b: Address, expiration: u64) -> GameState {
    GameState {
        player_a,
        player_b,
        turn: player_a,
        grid: 0,
        moves: 0,
        winner: None,
        expiration,
    }
}

impl GameState {
    /// The turn belongs to a player, the board is well formed, the move
    /// count is the number of marks, and the winner is the owner of the one
    /// completed line, if any.
    pub open spec fn wf(self) -> bool {
        &&& (self.turn == self.player_a || self.turn == self.player_b)
        &&& valid_grid(self.grid)
        &&& self.moves == filled_count(self.grid)
        &&& !(has_line(self.grid, MARK_A) && has_line(self.grid, MARK_B))
        &&& self.winner == line_winner(self.player_a, self.player_b, self.grid)
    }

    /// A winner is known, the board is full, or the deadline is reached.
    pub open spec fn is_ended(self, now: u64) -> bool {
        self.winner.is_some() || self.moves >= 9 || now >= self.expiration
    }

    /// The cell value that `p`'s moves write.
    pub open spec fn mark_for(self, p: Address) -> u32 {
        if p == self.player_a {
            MARK_A
        } else {
            MARK_B
        }
    }

    /// The player after `p`.
    pub open spec fn other(self, p: Address) -> Address {
        if p == self.player_a {
            self.player_b
        } else {
            self.player_a
        }
    }

    /// Why a move by `player` on `(x, y)` at time `now` is refused, if it is.
    pub open spec fn move_error(self, player: Address, x: u32, y: u32, now: u64) -> Option<
        GameError,
    > {
        if player != self.turn {
            Some(GameError::NotYourTurn)
        } else if self.is_ended(now) {
            Some(GameError::GameEnded)
        } else if x > 2 || y > 2 {
            Some(GameError::OutOfRange)
        } else if cell(self.grid, index_of(x, y)) != EMPTY_CELL {
            Some(GameError::CellOccupied)
        } else {
            None
        }
    }

    /// The state after the player on turn marks `(x, y)`.
    pub open spec fn after_move(self, x: u32, y: u32) -> GameState {
        let grid = marked(self.grid, index_of(x, y), self.mark_for(self.turn));
        GameState {
            turn: self.other(self.turn),
            grid,
            moves: (self.moves + 1) as u32,
            winner: line_winner(self.player_a, self.player_b, grid),
            ..self
        }
    }
}

/// No game, or a well-formed one.
pub open spec fn wf_game(game: Option<GameState>) -> bool {
    match game {
        Some(s) => s.wf(),
        None => true,
    }
}

proof fn lemma_none_filled(n: u32)
    requires
        n <= 9,
        forall|i: u32| i < 9 ==> #[trigger] cell(0, i) == 0,
    ensures
        filled_upto(0, n) == 0,
    decreases n,
{
    if n > 0 {
        lemma_none_filled((n - 1) as u32);
    }
}

proof fn lemma_empty_grid()
    ensures
        valid_grid(0),
        filled_count(0) == 0,
        forall|m: u32| m != EMPTY_CELL ==> !#[trigger] has_line(0, m),
{
    assert forall|i: u32| i < 9 implies #[trigger] cell(0, i) == 0 by {
        assert((0u32 >> ((i * 2) as u32)) & 3u32 == 0) by (bit_vector);
    }
    lemma_none_filled(9);
}

/// Whether `game` is absent or well formed; a state read back from storage
/// is checked with this before it is used.
pub fn is_valid_game(game: &Option<GameState>) -> (r: bool)
    ensures
        r == wf_game(*game),
{
    let s = match game {
        Some(s) => s,
        None => {
            return true;
        },
    };
    if s.turn != s.player_a && s.turn != s.player_b {
        return false;
    }
    if !is_valid_grid(s.grid) || s.moves != count_filled(s.grid) {
        return false;
    }
    if line_of(s.grid, MARK_A) && line_of(s.grid, MARK_B) {
        return false;
    }
    let expected = check_winner(s.player_a, s.player_b, s.grid);
    match (s.winner, expected) {
        (Some(w), Some(e)) => w == e,
        (None, None) => true,
        _ => false,
    }
}

/// Whether the game has its players.
fn has_players(game: &Option<GameState>) -> (r: bool)
    ensures
        r == game.is_some(),
{
    game.is_some()
}

/// Start a game between `player_a` and `player_b` that expires at the
/// absolute time `expiration`; `player_a` moves first. Refused on a game
/// that already started.
pub fn init(game: &mut Option<GameState>, player_a: Address, player_b: Address, expiration: u64) -> (r:
    Result<(), GameError>)
    ensures
        old(game).is_some() ==> r == Err::<(), GameError>(GameError::AlreadyInitialized)
            && *final(game) == *old(game),
        old(game).is_none() ==> r == Ok::<(), GameError>(()) && *final(game) == Some(
            new_game(player_a, player_b, expiration),
        ),
        wf_game(*final(game)) || *final(game) == *old(game),
{
    if has_players(game) {
        return Err(GameError::AlreadyInitialized);
    }
    proof {
        lemma_empty_grid();
    }
    *game = Some(
        GameState {
            player_a,
            player_b,
            turn: player_a,
            grid: 0,
            moves: 0,
            winner: None,
            expiration,
        },
    );
    Ok(())
}

/// The player after the one on turn.
fn change_turn(s: &GameState) -> (r: Address)
    ensures
        r == s.other(s.turn),
{
    if s.turn == s.player_a {
        s.player_b
    } else {
        s.player_a
    }
}

/// The owner of a completed line of `grid`, if any.
fn check_winner(player_a: Address, player_b: Address, grid: u32) -> (r: Option<Address>)
    ensures
        r == line_winner(player_a, player_b, grid),
{
    let mut winner: Option<Address> = None;
    if line_of(grid, MARK_A) {
        winner = Some(player_a);
    }
    if line_of(grid, MARK_B) {
        winner = Some(player_b);
    }
    winner
}

/// Whether the deadline is reached at time `now`.
fn is_expired(s: &GameState, now: u64) -> (r: bool)
    ensures
        r == (now >= s.expiration),
{
    now >= s.expiration
}

/// Whether the game is over at time `now`: a winner is known, all nine
/// cells are marked, or the deadline has passed. A game without players has
/// not started, so it has not ended either.
pub fn has_ended(game: &Option<GameState>, now: u64) -> (r: bool)
    ensures
        r == match *game {
            Some(s) => s.is_ended(now),
            None => false,
        },
        match *game {
            Some(s) => now >= s.expiration ==> r,
            None => !r,
        },
{
    match game {
        Some(s) => s.winner.is_some() || s.moves >= 9 || is_expired(s, now),
        None => false,
    }
}

/// Whether a winner is known.
pub fn has_winner(game: &Option<GameState>) -> (r: bool)
    ensures
        r == match *game {
            Some(s) => s.winner.is_some(),
            None => false,
        },
{
    match game {
        Some(s) => s.winner.is_some(),
        None => false,
    }
}

/// The winner, where one is known.
pub fn get_winner(game: &Option<GameState>) -> (r: Option<Address>)
    ensures
        r == match *game {
            Some(s) => s.winner,
            None => None,
        },
{
    match game {
        Some(s) => s.winner,
        None => None,
    }
}

/// Mark `(pos_x, pos_y)` for `player`, who must hold the turn, and return
/// the board's nine symbols. The caller's identity must already be
/// authenticated by the host.
pub fn play(game: &mut Option<GameState>, player: Address, pos_x: u32, pos_y: u32, now: u64) -> (r:
    Result<Vec<Mark>, GameError>)
    requires
        wf_game(*old(game)),
    ensures
        wf_game(*final(game)),
        match *old(game) {
            None => r == Err::<Vec<Mark>, GameError>(GameError::NotInitialized) && *final(game)
                == *old(game),
            Some(s) => match s.move_error(player, pos_x, pos_y, now) {
                Some(e) => r == Err::<Vec<Mark>, GameError>(e) && *final(game) == *old(game),
                None => {
                    let t = s.after_move(pos_x, pos_y);
                    &&& *final(game) == Some(t)
                    &&& r is Ok && r->Ok_0@ == marks(t.grid)
                    &&& t.moves == filled_count(t.grid)
                    &&& t.moves == count_marked(r->Ok_0@)
                    &&& t.turn == s.other(player)
                    &&& (s.player_a != s.player_b ==> t.turn != player)
                },
            },
        },
{
    let s = match game {
        Some(s) => *s,
        None => {
            return Err(GameError::NotInitialized);
        },
    };
    if s.turn != player {
        return Err(GameError::NotYourTurn);
    }
    if has_ended(game, now) {
        return Err(GameError::GameEnded);
    }
    if pos_x > 2 || pos_y > 2 {
        return Err(GameError::OutOfRange);
    }
    if !is_empty_cell(s.grid, pos_x, pos_y) {
        return Err(GameError::CellOccupied);
    }
    let m = if s.turn == s.player_a {
        MARK_A
    } else {
        MARK_B
    };
    let grid = mark_cell(s.grid, pos_x, pos_y, m);
    let winner = check_winner(s.player_a, s.player_b, grid);
    let turn = change_turn(&s);
    let t = GameState { turn, grid, moves: s.moves + 1, winner, ..s };
    proof {
        let o = if m == MARK_A {
            MARK_B
        } else {
            MARK_A
        };
        assert(!has_line(s.grid, o));
        assert(!has_line(grid, o));
        assert(t == s.after_move(pos_x, pos_y));
        lemma_count_marked(grid);
    }
    *game = Some(t);
    Ok(decode(grid))
}

/// The board's nine symbols, row-major from `(0, 0)`; all empty before the
/// game starts.
pub fn grid(game: &Option<GameState>) -> (r: Vec<Mark>)
    ensures
        r@ == marks(get_grid_spec(*game)),
{
    decode(get_grid(game))
}

/// The packed board; `0` before the game starts.
pub open spec fn get_grid_spec(game: Option<GameState>) -> u32 {
    match game {
        Some(s) => s.grid,
        None => 0,
    }
}

/// The packed board; `0` before the game starts.
pub fn get_grid(game: &Option<GameState>) -> (r: u32)
    ensures
        r == get_grid_spec(*game),
{
    match game {
        Some(s) => s.grid,
        None => 0,
    }
}

/// The outcome of an ended game: its winner, or `None` on a draw or a game
/// that expired undecided. Refused while the game is still being played.
pub fn winner(game: &Option<GameState>, now: u64) -> (r: Result<Option<Address>, GameError>)
    ensures
        r == match *game {
            None => Err(GameError::NotInitialized),
            Some(s) => if s.is_ended(now) {
                Ok(s.winner)
            } else {
                Err(GameError::StillPlaying)
            },
        },
{
    match game {
        None => Err(GameError::NotInitialized),
        Some(s) => {
            if !has_ended(game, now) {
                Err(GameError::StillPlaying)
            } else {
                Ok(s.winner)
            }
        },
    }
}

/// The first player.
pub fn get_player_a(game: &Option<GameState>) -> (r: Result<Address, GameError>)
    ensures
        r == match *game {
            Some(s) => Ok(s.player_a),
            None => Err(GameError::NotInitialized),
        },
{
    match game {
        Some(s) => Ok(s.player_a),
        None => Err(GameError::NotInitialized),
    }
}

/// The second player.
pub fn get_player_b(game: &Option<GameState>) -> (r: Result<Address, GameError>)
    ensures
        r == match *game {
            Some(s) => Ok(s.player_b),
            None => Err(GameError::NotInitialized),
        },
{
    match game {
        Some(s) => Ok(s.player_b),
        None => Err(GameError::NotInitialized),
    }
}

/// The player whose move is awaited.
pub fn get_player_turn(game: &Option<GameState>) -> (r: Result<Address, GameError>)
    ensures
        r == match *game {
            Some(s) => Ok(s.turn),
            None => Err(GameError::NotInitialized),
        },
{
    match game {
        Some(s) => Ok(s.turn),
        None => Err(GameError::NotInitialized),
    }
}

/// A row, column or diagonal filled with one player's marks makes that
/// player the winner, and the game is then over.
pub proof fn lemma_line_decides(s: GameState, m: u32, now: u64)
    requires
        s.wf(),
        m == MARK_A || m == MARK_B,
        has_line(s.grid, m),
    ensures
        s.winner == Some(if m == MARK_A {
            s.player_a
        } else {
            s.player_b
        }),
        s.is_ended(now),
{
}

proof fn lemma_all_filled(grid: u32, n: u32)
    requires
        n <= 9,
        forall|i: u32| i < 9 ==> #[trigger] cell(grid, i) != EMPTY_CELL,
    ensures
        filled_upto(grid, n) == n,
    decreases n,
{
    if n > 0 {
        lemma_all_filled(grid, (n - 1) as u32);
    }
}

/// A full board without a completed line is a draw: the game is over and
/// has no winner.
pub proof fn lemma_full_board_draw(s: GameState, now: u64)
    requires
        s.wf(),
        forall|i: u32| i < 9 ==> #[trigger] cell(s.grid, i) != EMPTY_CELL,
        !has_line(s.grid, MARK_A),
        !has_line(s.grid, MARK_B),
    ensures
        s.is_ended(now),
        s.winner is None,
{
    lemma_all_filled(s.grid, 9);
}

} // verus!
