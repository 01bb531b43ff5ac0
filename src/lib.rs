//! A two-player tic-tac-toe game with stakes, as a set of verified state
//! transitions: the board codec, the game state machine, the escrow that
//! settles the players' stakes, and a registry that tallies wins.
//!
//! The host that runs the game supplies storage, authorization, the ledger
//! clock and token transfers. Each operation here receives what it needs of
//! those as plain values (an authorized caller, the current time) and hands
//! back what the host must carry out (the payments to make).
use vstd::prelude::*;

pub mod board;
pub mod game;
pub mod bet;
pub mod chat;
pub mod registry;
pub mod contract;

verus! {

/// An account identity as the host knows it. The host maps its own account
/// handles to these integers; the game only compares them.
pub type Address = u64;

/// Why an operation was refused. A refused operation changes nothing.
#[derive(Clone, Copy, Debug, PartialEq, Eq, Structural)]
pub enum GameError {
    /// `init` on a game that already has its players.
    AlreadyInitialized,
    /// The game has no players yet.
    NotInitialized,
    /// The caller does not hold the turn.
    NotYourTurn,
    /// The game is over: a winner, a full board or the deadline passed.
    GameEnded,
    /// A coordinate is larger than 2.
    OutOfRange,
    /// The target cell already holds a mark.
    CellOccupied,
    /// The outcome was asked for while the game is still being played.
    StillPlaying,
    /// The caller is neither of the two players.
    NotAPlayer,
    /// A negative stake, or one that would take the escrow past `i128::MAX`.
    InvalidAmount,
    /// The caller has no recorded stake.
    NoBet,
    /// The caller's stake was already settled.
    AlreadyPaid,
    /// The registry holds no game under that address.
    UnknownGame,
    /// A win count is at `u32::MAX` and cannot grow.
    ScoreOverflow,
}

} // verus!
