//! Error taxonomy for the lottery pool and the mock token.
//!
//! Every operation that fails returns one of these values and leaves the
//! state exactly as it was: no partial update is ever observable.

use vstd::prelude::*;

verus! {

/// Why a lottery operation was rejected.
#[derive(Clone, Copy, Debug, PartialEq, Eq)]
pub enum LotteryError {
    /// `initialize` was called a second time.
    AlreadyInitialized,
    /// An operation ran before `initialize`.
    NotInitialized,
    /// The caller did not prove control of the account it acted for.
    Unauthorized,
    /// `initialize` was given a bad rate, duration or minimum deposit.
    InvalidConfig,
    /// An entry deposit was below the configured minimum.
    BelowMinimum,
    /// The addressed round is not the active one.
    RoundInactive,
    /// The active round's window has closed; no further entries.
    RoundEnded,
    /// The round has not been settled yet.
    RoundNotEnded,
    /// The player already holds an entry in this round.
    DuplicateEntry,
    /// Settlement was invoked before anyone entered.
    NoPlayers,
    /// The refund for this entry was already paid.
    AlreadyClaimed,
    /// The claimant is the round's winner or never entered the round.
    NotEligibleForRefund,
    /// The round settled without a winner (jackpot rollover) or is still open.
    WinnerNotSelected,
    /// No round with the given id exists.
    RoundNotFound,
}

/// Why a token operation was rejected.
#[derive(Clone, Copy, Debug, PartialEq, Eq)]
pub enum TokenError {
    /// The token has no admin yet.
    NotInitialized,
    /// The caller did not prove control of the paying account.
    Unauthorized,
    /// The paying account holds less than the transfer amount.
    InsufficientBalance,
}

} // verus!
