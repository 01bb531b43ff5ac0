//! The escrow: each player's stake, and its one-time settlement once the game
//! has ended.
//!
//! Token movements are the host's: `make` records a stake whose transfer into
//! custody the host performs in the same call, and `collect` returns the
//! payments that the host must send out of custody.
use vstd::prelude::*;

use crate::game::{wf_game, GameState};
use crate::{Address, GameError};

verus! {

/// A player's stake.
#[derive(Clone, Copy, Debug, PartialEq, Eq, Structural)]
pub struct Bet {
    /// The asset staked, fixed by the first deposit.
    pub token: Address,
    /// Everything deposited so far.
    pub amount: i128,
    /// Whether the stake has been settled.
    pub paid: bool,
}

/// A transfer out of custody that a settlement asks of the host.
#[derive(Clone, Copy, Debug, PartialEq, Eq, Structural)]
pub struct Payment {
    pub to: Address,
    pub token: Address,
    /// Always positive.
    pub amount: i128,
}

/// The stakes of the two players of one game.
#[derive(Clone, Copy, Debug, PartialEq, Eq, Structural)]
pub struct Stakes {
    pub bet_a: Option<Bet>,
    pub bet_b: Option<Bet>,
}

/// The amount of a stake; nothing staked counts as 0.
pub open spec fn staked(b: Option<Bet>) -> int {
    match b {
        Some(b) => b.amount as int,
        None => 0,
    }
}

/// The part of `own` that the opponent's `other` did not match.
pub open spec fn refund_of(own: int, other: int) -> int {
    if own > other {
        own - other
    } else {
        0
    }
}

/// The matched pot of each side: the smaller stake.
pub open spec fn matched(own: int, other: int) -> int {
    if own < other {
        own
    } else {
        other
    }
}

/// What a winner receives besides the refund, all in one token when both
/// stakes share it: the opponent's matched stake and the matched part of its
/// own.
pub open spec fn prize_of(own: int, other: int) -> int {
    matched(own, other) + (own - refund_of(own, other))
}

/// A payment of `amount` in `token` to `to`, or nothing if `amount` is not
/// positive.
pub open spec fn payment_of(to: Address, token: Address, amount: int) -> Seq<Payment> {
    if amount > 0 {
        seq![Payment { to, token, amount: amount as i128 }]
    } else {
        Seq::empty()
    }
}

/// The token of the opponent's stake; without one, the player's own.
pub open spec fn other_token(own: Bet, other: Option<Bet>) -> Address {
    match other {
        Some(b) => b.token,
        None => own.token,
    }
}

/// The payments that settle stake `own` of player `to` against the
/// opponent's stake `other`: the refund of the unmatched excess, and, for the
/// winner, both matched parts, each in the token it was staked in (one
/// payment when both stakes share a token). Amounts that are not positive
/// are left out.
pub open spec fn settlement(to: Address, own: Bet, other: Option<Bet>, won: bool) -> Seq<Payment> {
    let refund = refund_of(own.amount as int, staked(other));
    let mine = own.amount - refund;
    let theirs = matched(own.amount as int, staked(other));
    let token = other_token(own, other);
    let prizes = if !won {
        Seq::empty()
    } else if token == own.token {
        payment_of(to, own.token, prize_of(own.amount as int, staked(other)))
    } else {
        payment_of(to, own.token, mine) + payment_of(to, token, theirs)
    };
    payment_of(to, own.token, refund) + prizes
}

/// The stake that a first or further deposit of `amount` in `token` leaves.
pub open spec fn placed(prev: Option<Bet>, token: Address, amount: i128) -> Bet {
    match prev {
        None => Bet { token, amount, paid: false },
        Some(b) => Bet { amount: (b.amount + amount) as i128, ..b },
    }
}

impl Stakes {
    /// No stake is negative, and custody can hold both together.
    pub open spec fn wf(self) -> bool {
        &&& staked(self.bet_a) >= 0
        &&& staked(self.bet_b) >= 0
        &&& staked(self.bet_a) + staked(self.bet_b) <= i128::MAX
    }

    /// The stake of `p` in game `s`.
    pub open spec fn of(self, s: GameState, p: Address) -> Option<Bet> {
        if p == s.player_a {
            self.bet_a
        } else if p == s.player_b {
            self.bet_b
        } else {
            None
        }
    }

    /// The stake of the opponent of `p`, one of the players of `s`.
    pub open spec fn opponent_of(self, s: GameState, p: Address) -> Option<Bet> {
        if p == s.player_a {
            self.bet_b
        } else {
            self.bet_a
        }
    }

    /// These stakes with the stake of `p`, a player of `s`, replaced by `b`.
    pub open spec fn with(self, s: GameState, p: Address, b: Bet) -> Stakes {
        if p == s.player_a {
            Stakes { bet_a: Some(b), ..self }
        } else {
            Stakes { bet_b: Some(b), ..self }
        }
    }

    /// Why a deposit is refused, if it is.
    pub open spec fn make_error(self, game: Option<GameState>, p: Address, amount: i128) -> Option<
        GameError,
    > {
        match game {
            None => Some(GameError::NotInitialized),
            Some(s) => if p != s.player_a && p != s.player_b {
                Some(GameError::NotAPlayer)
            } else if amount < 0 || staked(self.bet_a) + staked(self.bet_b) + amount > i128::MAX {
                Some(GameError::InvalidAmount)
            } else {
                None
            },
        }
    }

    /// Why a settlement is refused at time `now`, if it is.
    pub open spec fn collect_error(self, game: Option<GameState>, p: Address, now: u64) -> Option<
        GameError,
    > {
        match game {
            None => Some(GameError::NotInitialized),
            Some(s) => match self.of(s, p) {
                None => Some(GameError::NoBet),
                Some(own) => if !s.is_ended(now) {
                    Some(GameError::StillPlaying)
                } else if own.paid {
                    Some(GameError::AlreadyPaid)
                } else {
                    None
                },
            },
        }
    }

    /// What settling the stake of `p` in ended game `s` pays.
    pub open spec fn payout(self, s: GameState, p: Address) -> Seq<Payment> {
        match self.of(s, p) {
            Some(own) => settlement(p, own, self.opponent_of(s, p), s.winner == Some(p)),
            None => Seq::empty(),
        }
    }
}

/// Whether `stakes` are well formed; stakes read back from storage are
/// checked with this before they are used.
pub fn is_valid_stakes(stakes: &Stakes) -> (r: bool)
    ensures
        r == stakes.wf(),
{
    let a = amount_of(stakes.bet_a);
    let b = amount_of(stakes.bet_b);
    a >= 0 && b >= 0 && a <= i128::MAX - b
}

fn slot(s: &GameState, stakes: &Stakes, player: Address) -> (r: Option<Bet>)
    ensures
        r == stakes.of(*s, player),
{
    if player == s.player_a {
        stakes.bet_a
    } else if player == s.player_b {
        stakes.bet_b
    } else {
        None
    }
}

fn set_bet(s: &GameState, stakes: &mut Stakes, player: Address, bet: Bet)
    ensures
        *final(stakes) == old(stakes).with(*s, player, bet),
{
    if player == s.player_a {
        stakes.bet_a = Some(bet);
    } else {
        stakes.bet_b = Some(bet);
    }
}

fn amount_of(b: Option<Bet>) -> (r: i128)
    ensures
        r == staked(b),
{
    match b {
        Some(b) => b.amount,
        None => 0,
    }
}

/// Record a deposit of `amount` of `token` by `player`, whose transfer into
/// custody the host makes in the same call. The first deposit fixes the
/// stake's token; later ones add to its amount. Returns the stake as it now
/// stands.
pub fn make(game: &Option<GameState>, stakes: &mut Stakes, player: Address, token: Address, amount: i128) -> (r:
    Result<Bet, GameError>)
    requires
        old(stakes).wf(),
    ensures
        final(stakes).wf(),
        match old(stakes).make_error(*game, player, amount) {
            Some(e) => r == Err::<Bet, GameError>(e) && *final(stakes) == *old(stakes),
            None => {
                let s = game->Some_0;
                let b = placed(old(stakes).of(s, player), token, amount);
                &&& r == Ok::<Bet, GameError>(b)
                &&& *final(stakes) == old(stakes).with(s, player, b)
                &&& b.amount == staked(old(stakes).of(s, player)) + amount
            },
        },
{
    let s = match game {
        Some(s) => s,
        None => {
            return Err(GameError::NotInitialized);
        },
    };
    if player != s.player_a && player != s.player_b {
        return Err(GameError::NotAPlayer);
    }
    let held = amount_of(stakes.bet_a) + amount_of(stakes.bet_b);
    if amount < 0 || amount > i128::MAX - held {
        return Err(GameError::InvalidAmount);
    }
    let bet = match slot(s, stakes, player) {
        None => Bet { token, amount, paid: false },
        Some(b) => Bet { amount: b.amount + amount, ..b },
    };
    set_bet(s, stakes, player, bet);
    Ok(bet)
}

/// The payments that settle `own` against `other`.
fn settle(to: Address, own: Bet, other: Option<Bet>, won: bool) -> (r: Vec<Payment>)
    requires
        own.amount >= 0,
        staked(other) >= 0,
        own.amount + staked(other) <= i128::MAX,
    ensures
        r@ == settlement(to, own, other, won),
{
    let other_amount = amount_of(other);
    let other_token = match other {
        Some(b) => b.token,
        None => own.token,
    };
    let refund = if own.amount > other_amount {
        own.amount - other_amount
    } else {
        0
    };
    let pot = if own.amount < other_amount {
        own.amount
    } else {
        other_amount
    };
    let mine = own.amount - refund;
    let mut payments: Vec<Payment> = Vec::new();
    pay(&mut payments, to, own.token, refund);
    if won {
        if other_token == own.token {
            pay(&mut payments, to, own.token, pot + mine);
        } else {
            pay(&mut payments, to, own.token, mine);
            pay(&mut payments, to, other_token, pot);
        }
    }
    proof {
        assert(payments@ =~= settlement(to, own, other, won));
    }
    payments
}

/// Queue a payment of `amount`, unless it is not positive.
fn pay(payments: &mut Vec<Payment>, to: Address, token: Address, amount: i128)
    ensures
        final(payments)@ == if amount > 0 {
            old(payments)@.push(Payment { to, token, amount })
        } else {
            old(payments)@
        },
{
    if amount <= 0 {
        return;
    }
    payments.push(Payment { to, token, amount });
}

/// Settle `player`'s stake once the game has ended: the unmatched excess is
/// refunded, and the winner also receives the matched pot of both sides,
/// each side's part in the token it was staked in. Without a winner the
/// matched pot stays in custody.
/// The stake is marked paid; the host sends the returned payments in the
/// same call.
pub fn collect(game: &Option<GameState>, stakes: &mut Stakes, player: Address, now: u64) -> (r:
    Result<Vec<Payment>, GameError>)
    requires
        wf_game(*game),
        old(stakes).wf(),
    ensures
        final(stakes).wf(),
        match old(stakes).collect_error(*game, player, now) {
            Some(e) => r == Err::<Vec<Payment>, GameError>(e) && *final(stakes) == *old(stakes),
            None => {
                let s = game->Some_0;
                let own = old(stakes).of(s, player)->Some_0;
                &&& r is Ok && r->Ok_0@ == old(stakes).payout(s, player)
                &&& *final(stakes) == old(stakes).with(s, player, Bet { paid: true, ..own })
            },
        },
{
    let s = match game {
        Some(s) => s,
        None => {
            return Err(GameError::NotInitialized);
        },
    };
    let own = match slot(s, stakes, player) {
        Some(b) => b,
        None => {
            return Err(GameError::NoBet);
        },
    };
    if !(s.winner.is_some() || s.moves >= 9 || now >= s.expiration) {
        return Err(GameError::StillPlaying);
    }
    if own.paid {
        return Err(GameError::AlreadyPaid);
    }
    let other = if player == s.player_a {
        stakes.bet_b
    } else {
        stakes.bet_a
    };
    let won = match s.winner {
        Some(w) => w == player,
        None => false,
    };
    let payments = settle(player, own, other, won);
    set_bet(s, stakes, player, Bet { paid: true, ..own });
    Ok(payments)
}

/// The total that `ps` moves in `token`.
pub open spec fn paid_in(ps: Seq<Payment>, token: Address) -> int
    decreases ps.len(),
{
    if ps.len() == 0 {
        0
    } else {
        paid_in(ps.drop_last(), token) + if ps.last().token == token {
            ps.last().amount as int
        } else {
            0
        }
    }
}

/// What a stake holds in `token`.
pub open spec fn held(b: Option<Bet>, token: Address) -> int {
    match b {
        Some(b) => if b.token == token {
            b.amount as int
        } else {
            0
        },
        None => 0,
    }
}

/// What both stakes together hold in `token`.
pub open spec fn held_in(stakes: Stakes, token: Address) -> int {
    held(stakes.bet_a, token) + held(stakes.bet_b, token)
}

/// The stakes after `p`'s stake in `s`, if there is one, is settled.
pub open spec fn settled(stakes: Stakes, s: GameState, p: Address) -> Stakes {
    match stakes.of(s, p) {
        Some(own) => stakes.with(s, p, Bet { paid: true, ..own }),
        None => stakes,
    }
}

proof fn lemma_paid_in_concat(a: Seq<Payment>, b: Seq<Payment>, t: Address)
    ensures
        paid_in(a + b, t) == paid_in(a, t) + paid_in(b, t),
    decreases b.len(),
{
    if b.len() == 0 {
        assert(a + b =~= a);
    } else {
        lemma_paid_in_concat(a, b.drop_last(), t);
        assert((a + b).drop_last() =~= a + b.drop_last());
    }
}

proof fn lemma_paid_in_payment(to: Address, token: Address, amount: int, t: Address)
    requires
        amount <= i128::MAX,
    ensures
        paid_in(payment_of(to, token, amount), t) == if token == t && amount > 0 {
            amount
        } else {
            0
        },
{
    let ps = payment_of(to, token, amount);
    assert(paid_in(Seq::<Payment>::empty(), t) == 0);
    if amount > 0 {
        assert(ps.drop_last() =~= Seq::<Payment>::empty());
        assert(ps.last().amount as int == amount);
    }
}

proof fn lemma_paid_in_settlement(to: Address, own: Bet, other: Option<Bet>, won: bool, t: Address)
    requires
        own.amount >= 0,
        staked(other) >= 0,
        own.amount + staked(other) <= i128::MAX,
    ensures
        paid_in(settlement(to, own, other, won), t) == (if own.token == t {
            refund_of(own.amount as int, staked(other))
        } else {
            0
        }) + (if won && own.token == t {
            own.amount - refund_of(own.amount as int, staked(other))
        } else {
            0
        }) + (if won && other_token(own, other) == t {
            matched(own.amount as int, staked(other))
        } else {
            0
        }),
{
    let refund = refund_of(own.amount as int, staked(other));
    let mine = own.amount - refund;
    let theirs = matched(own.amount as int, staked(other));
    let token = other_token(own, other);
    let prize = prize_of(own.amount as int, staked(other));
    lemma_paid_in_payment(to, own.token, refund, t);
    lemma_paid_in_payment(to, own.token, mine, t);
    lemma_paid_in_payment(to, token, theirs, t);
    lemma_paid_in_payment(to, own.token, prize, t);
    let prizes = if !won {
        Seq::empty()
    } else if token == own.token {
        payment_of(to, own.token, prize)
    } else {
        payment_of(to, own.token, mine) + payment_of(to, token, theirs)
    };
    lemma_paid_in_concat(payment_of(to, own.token, refund), prizes, t);
    lemma_paid_in_concat(payment_of(to, own.token, mine), payment_of(to, token, theirs), t);
    assert(paid_in(Seq::<Payment>::empty(), t) == 0);
}

/// Escrow conservation: once a game has ended, settling the stakes of both
/// players, in either order, pays out in any token no more than the stakes
/// hold of it, whether or not the two stakes share a token.
pub proof fn lemma_escrow_conservation(s: GameState, stakes: Stakes, token: Address)
    requires
        s.wf(),
        stakes.wf(),
        s.player_a != s.player_b,
    ensures
        paid_in(stakes.payout(s, s.player_a), token) + paid_in(
            settled(stakes, s, s.player_a).payout(s, s.player_b),
            token,
        ) <= held_in(stakes, token),
        paid_in(stakes.payout(s, s.player_b), token) + paid_in(
            settled(stakes, s, s.player_b).payout(s, s.player_a),
            token,
        ) <= held_in(stakes, token),
{
    let (a, b) = (s.player_a, s.player_b);
    assert(settled(stakes, s, a).payout(s, b) == stakes.payout(s, b));
    assert(settled(stakes, s, b).payout(s, a) == stakes.payout(s, a));
    match stakes.bet_a {
        Some(own) => lemma_paid_in_settlement(a, own, stakes.bet_b, s.winner == Some(a), token),
        None => {},
    }
    match stakes.bet_b {
        Some(own) => lemma_paid_in_settlement(b, own, stakes.bet_a, s.winner == Some(b), token),
        None => {},
    }
}

} // verus!
