//! The registry of deployed games and the leaderboard of wins.
//!
//! Deploying an instance and asking it whether it has ended are the host's
//! work: `deploy` records an instance that the host has created, and `game`
//! takes the outcome that the host read from the live instance.
use vstd::prelude::*;

use std::collections::BTreeMap;

use crate::{Address, GameError};

verus! {

/// How long a deployed game lasts, in ledger seconds.
pub const GAME_DURATION: u64 = 600;

/// The registry's record of a deployed game.
#[derive(Clone, Copy, Debug, PartialEq, Eq, Structural)]
pub struct Game {
    pub player_a: Address,
    pub player_b: Address,
    /// Whether the game was seen to have ended; set once, never cleared.
    pub ended: bool,
}

/// The registry: deployed games by address, and wins by player.
pub struct Deployer {
    pub games: BTreeMap<Address, Game>,
    pub scores: BTreeMap<Address, u32>,
}

/// The wins of `player`; none recorded counts as 0.
pub open spec fn score_of(scores: Map<Address, u32>, player: Address) -> u32 {
    if scores.contains_key(player) {
        scores[player]
    } else {
        0
    }
}

/// The leaderboard after one more win of `winner`, if there is a winner.
pub open spec fn with_win(scores: Map<Address, u32>, winner: Option<Address>) -> Map<Address, u32> {
    match winner {
        Some(w) => scores.insert(w, (score_of(scores, w) + 1) as u32),
        None => scores,
    }
}

/// The absolute deadline of a game deployed at time `now`.
pub fn add_exp(now: u64) -> (r: u64)
    requires
        now <= u64::MAX - GAME_DURATION,
    ensures
        r == now + GAME_DURATION,
{
    now + GAME_DURATION
}

/// A fresh record of a game between `player_a` and `player_b`.
fn create_game(player_a: Address, player_b: Address) -> (r: Game)
    ensures
        r == (Game { player_a, player_b, ended: false }),
{
    Game { player_a, player_b, ended: false }
}

impl Deployer {
    /// An empty registry.
    pub fn new() -> (r: Deployer)
        ensures
            r.games@ == Map::<Address, Game>::empty(),
            r.scores@ == Map::<Address, u32>::empty(),
    {
        Deployer { games: BTreeMap::new(), scores: BTreeMap::new() }
    }

    /// Record the game instance that the host deployed at `id` for
    /// `player_a` and `player_b`, and return its address.
    pub fn deploy(&mut self, id: Address, player_a: Address, player_b: Address) -> (r: Address)
        ensures
            r == id,
            final(self).games@ == old(self).games@.insert(
                id,
                Game { player_a, player_b, ended: false },
            ),
            final(self).scores@ == old(self).scores@,
    {
        let game = create_game(player_a, player_b);
        self.games.insert(id, game);
        id
    }

    /// Whether game `id` is recorded and not yet known to have ended, so
    /// that the host has to ask the live instance for its outcome.
    pub fn needs_refresh(&self, id: Address) -> (r: bool)
        ensures
            r == (self.games@.contains_key(id) && !self.games@[id].ended),
    {
        match self.games.get(&id) {
            Some(g) => !g.ended,
            None => false,
        }
    }

    /// The wins of `player`.
    fn get_score(&self, player: Address) -> (r: u32)
        ensures
            r == score_of(self.scores@, player),
    {
        match self.scores.get(&player) {
            Some(v) => *v,
            None => 0,
        }
    }

    /// Count one more win for `player`, unless the count is at its limit.
    fn add_win(&mut self, player: Address) -> (r: Result<(), GameError>)
        ensures
            final(self).games@ == old(self).games@,
            score_of(old(self).scores@, player) == u32::MAX ==> r == Err::<(), GameError>(
                GameError::ScoreOverflow,
            ) && final(self).scores@ == old(self).scores@,
            score_of(old(self).scores@, player) < u32::MAX ==> r == Ok::<(), GameError>(())
                && final(self).scores@ == with_win(old(self).scores@, Some(player)),
    {
        let score = self.get_score(player);
        if score == u32::MAX {
            return Err(GameError::ScoreOverflow);
        }
        self.scores.insert(player, score + 1);
        Ok(())
    }

    /// The record of game `id`, brought up to date with what the host read
    /// from the live instance: whether it has ended and, if so, its winner.
    /// The first time a recorded game is seen to have ended, its record is
    /// frozen as ended and its winner, if any, gains one win; later calls
    /// change nothing. Refused for an unknown address.
    pub fn game(&mut self, id: Address, ended: bool, winner: Option<Address>) -> (r: Result<
        Game,
        GameError,
    >)
        ensures
            !old(self).games@.contains_key(id) ==> r == Err::<Game, GameError>(
                GameError::UnknownGame,
            ) && final(self).games@ == old(self).games@ && final(self).scores@ == old(self).scores@,
            old(self).games@.contains_key(id) ==> {
                let g = old(self).games@[id];
                if g.ended || !ended {
                    &&& r == Ok::<Game, GameError>(g)
                    &&& final(self).games@ == old(self).games@
                    &&& final(self).scores@ == old(self).scores@
                } else if winner is Some && score_of(old(self).scores@, winner->Some_0)
                    == u32::MAX {
                    &&& r == Err::<Game, GameError>(GameError::ScoreOverflow)
                    &&& final(self).games@ == old(self).games@
                    &&& final(self).scores@ == old(self).scores@
                } else {
                    let h = Game { ended: true, ..g };
                    &&& r == Ok::<Game, GameError>(h)
                    &&& final(self).games@ == old(self).games@.insert(id, h)
                    &&& final(self).scores@ == with_win(old(self).scores@, winner)
                }
            },
    {
        let mut game = match self.games.get(&id) {
            Some(g) => *g,
            None => {
                return Err(GameError::UnknownGame);
            },
        };
        if !game.ended && ended {
            if let Some(w) = winner {
                let won = self.add_win(w);
                if won.is_err() {
                    return Err(GameError::ScoreOverflow);
                }
            }
            game.ended = true;
            self.games.insert(id, game);
        }
        Ok(game)
    }

    /// The leaderboard: wins by player.
    pub fn scores(&self) -> (r: BTreeMap<Address, u32>)
        ensures
            r@ == self.scores@,
    {
        self.scores.clone()
    }
}

} // verus!
