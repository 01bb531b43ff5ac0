//! One game instance: its state, both stakes and the message log, with the
//! entry points that the host exposes to callers.
//!
//! Each entry point that acts for a player takes that player's address as
//! already authenticated by the host; each one that depends on time takes
//! the current ledger time.
use vstd::prelude::*;

use crate::bet::{self, Bet, Payment, Stakes};
use crate::board::{marks, Mark};
use crate::chat::{self, log_view, Message};
use crate::game::{self, get_grid_spec, new_game, wf_game, GameState};
use crate::{Address, GameError};

verus! {

/// The whole state of one game instance.
pub struct GameContract {
    /// `None` until `init`.
    pub game: Option<GameState>,
    pub stakes: Stakes,
    pub chats: Vec<Message>,
}

impl GameContract {
    /// The game and the stakes are well formed.
    pub open spec fn wf(&self) -> bool {
        wf_game(self.game) && self.stakes.wf()
    }

    /// An instance before `init`: no players, no stakes, no messages.
    pub fn new() -> (r: GameContract)
        ensures
            r.wf(),
            r.game is None,
            r.stakes == (Stakes { bet_a: None, bet_b: None }),
            r.chats@.len() == 0,
    {
        GameContract { game: None, stakes: Stakes { bet_a: None, bet_b: None }, chats: Vec::new() }
    }

    /// Whether the instance is well formed, as every operation that changes
    /// it requires; the host checks a state read back from storage with this.
    pub fn is_valid(&self) -> (r: bool)
        ensures
            r == self.wf(),
    {
        game::is_valid_game(&self.game) && bet::is_valid_stakes(&self.stakes)
    }

    /// Start the game; see `game::init`. A second call is refused and
    /// changes nothing.
    pub fn init(&mut self, player_a: Address, player_b: Address, expiration: u64) -> (r: Result<
        (),
        GameError,
    >)
        requires
            old(self).wf(),
        ensures
            final(self).wf(),
            final(self).stakes == old(self).stakes,
            final(self).chats@ == old(self).chats@,
            old(self).game is Some ==> r == Err::<(), GameError>(GameError::AlreadyInitialized)
                && final(self).game == old(self).game,
            old(self).game is None ==> r == Ok::<(), GameError>(()) && final(self).game == Some(
                new_game(player_a, player_b, expiration),
            ),
    {
        game::init(&mut self.game, player_a, player_b, expiration)
    }

    /// Mark `(pos_x, pos_y)` for `player` at time `now`; see `game::play`.
    pub fn play(&mut self, player: Address, pos_x: u32, pos_y: u32, now: u64) -> (r: Result<
        Vec<Mark>,
        GameError,
    >)
        requires
            old(self).wf(),
        ensures
            final(self).wf(),
            final(self).stakes == old(self).stakes,
            final(self).chats@ == old(self).chats@,
            match old(self).game {
                None => r == Err::<Vec<Mark>, GameError>(GameError::NotInitialized) && final(self).game == old(self).game,
                Some(s) => match s.move_error(player, pos_x, pos_y, now) {
                    Some(e) => r == Err::<Vec<Mark>, GameError>(e) && final(self).game == old(self).game,
                    None => {
                        let t = s.after_move(pos_x, pos_y);
                        &&& final(self).game == Some(t)
                        &&& r is Ok && r->Ok_0@ == marks(t.grid)
                        &&& t.turn == s.other(player)
                        &&& (s.player_a != s.player_b ==> t.turn != player)
                    },
                },
            },
    {
        game::play(&mut self.game, player, pos_x, pos_y, now)
    }

    /// The player whose move is awaited.
    pub fn turn(&self) -> (r: Result<Address, GameError>)
        ensures
            r == match self.game {
                Some(s) => Ok(s.turn),
                None => Err(GameError::NotInitialized),
            },
    {
        game::get_player_turn(&self.game)
    }

    /// The first player.
    pub fn player_a(&self) -> (r: Result<Address, GameError>)
        ensures
            r == match self.game {
                Some(s) => Ok(s.player_a),
                None => Err(GameError::NotInitialized),
            },
    {
        game::get_player_a(&self.game)
    }

    /// The second player.
    pub fn player_b(&self) -> (r: Result<Address, GameError>)
        ensures
            r == match self.game {
                Some(s) => Ok(s.player_b),
                None => Err(GameError::NotInitialized),
            },
    {
        game::get_player_b(&self.game)
    }

    /// The outcome at time `now`; see `game::winner`.
    pub fn winner(&self, now: u64) -> (r: Result<Option<Address>, GameError>)
        ensures
            r == match self.game {
                None => Err(GameError::NotInitialized),
                Some(s) => if s.is_ended(now) {
                    Ok(s.winner)
                } else {
                    Err(GameError::StillPlaying)
                },
            },
    {
        game::winner(&self.game, now)
    }

    /// Whether a winner is known.
    pub fn has_winner(&self) -> (r: bool)
        ensures
            r == match self.game {
                Some(s) => s.winner is Some,
                None => false,
            },
    {
        game::has_winner(&self.game)
    }

    /// Whether the game is over at time `now`; see `game::has_ended`.
    pub fn ended(&self, now: u64) -> (r: bool)
        ensures
            r == match self.game {
                Some(s) => s.is_ended(now),
                None => false,
            },
    {
        game::has_ended(&self.game, now)
    }

    /// The board's nine symbols, row-major from `(0, 0)`.
    pub fn grid(&self) -> (r: Vec<Mark>)
        ensures
            r@ == marks(get_grid_spec(self.game)),
    {
        game::grid(&self.game)
    }

    /// Record `player`'s deposit of `amount` of `token`; see `bet::make`.
    pub fn bet(&mut self, player: Address, token: Address, amount: i128) -> (r: Result<
        Bet,
        GameError,
    >)
        requires
            old(self).wf(),
        ensures
            final(self).wf(),
            final(self).game == old(self).game,
            final(self).chats@ == old(self).chats@,
            match old(self).stakes.make_error(old(self).game, player, amount) {
                Some(e) => r == Err::<Bet, GameError>(e) && final(self).stakes == old(self).stakes,
                None => {
                    let s = old(self).game->Some_0;
                    let b = bet::placed(old(self).stakes.of(s, player), token, amount);
                    &&& r == Ok::<Bet, GameError>(b)
                    &&& final(self).stakes == old(self).stakes.with(s, player, b)
                },
            },
    {
        bet::make(&self.game, &mut self.stakes, player, token, amount)
    }

    /// Settle `player`'s stake at time `now`; see `bet::collect`.
    pub fn clct_bet(&mut self, player: Address, now: u64) -> (r: Result<Vec<Payment>, GameError>)
        requires
            old(self).wf(),
        ensures
            final(self).wf(),
            final(self).game == old(self).game,
            final(self).chats@ == old(self).chats@,
            match old(self).stakes.collect_error(old(self).game, player, now) {
                Some(e) => r == Err::<Vec<Payment>, GameError>(e) && final(self).stakes == old(self).stakes,
                None => {
                    let s = old(self).game->Some_0;
                    let own = old(self).stakes.of(s, player)->Some_0;
                    &&& r is Ok && r->Ok_0@ == old(self).stakes.payout(s, player)
                    &&& final(self).stakes == old(self).stakes.with(
                        s,
                        player,
                        Bet { paid: true, ..own },
                    )
                },
            },
    {
        bet::collect(&self.game, &mut self.stakes, player, now)
    }

    /// The message log, oldest first.
    pub fn chat(&self) -> (r: Vec<Message>)
        ensures
            log_view(r@) == log_view(self.chats@),
    {
        chat::get_chats(&self.chats)
    }

    /// Append a message by `player`; see `chat::add_msg`.
    pub fn send_msg(&mut self, player: Address, body: Vec<u8>) -> (r: Message)
        ensures
            final(self).game == old(self).game,
            final(self).stakes == old(self).stakes,
            r.view() == (player, body@),
            log_view(final(self).chats@) == log_view(old(self).chats@).push((player, body@)),
    {
        chat::add_msg(&mut self.chats, player, body)
    }
}

} // verus!
