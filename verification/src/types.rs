//! Data model of the lottery pool.
//!
//! Accounts and contract addresses are plain `u64` identifiers; the embedding
//! contract keeps the mapping between identifiers and real addresses.
//! Amounts are fixed-point integers in the asset's smallest unit (`i128`),
//! times are ledger clock units (`u64`).

use vstd::prelude::*;

verus! {

/// How the prize money beyond refunded principal is produced.
#[derive(Clone, Copy, Debug, PartialEq, Eq)]
pub enum YieldMode {
    /// No yield: the prize is the winner's own deposit.
    NoYield,
    /// Mock yield: a fixed rate applied over the round's duration.
    RateTimeMock,
    /// Real yield: deposits are staked in an external capital-market pool,
    /// and the house funds the prize from its own balance.
    ExternalPoolIntegration,
}

/// Configuration persisted once at initialization.
#[derive(Clone, Copy, Debug, PartialEq, Eq)]
pub struct LotteryConfig {
    /// Account that initialized the pool.
    pub admin: u64,
    /// The value-transfer asset contract.
    pub usdc_token: u64,
    /// The external yield pool contract.
    pub blend_pool: u64,
    /// Which yield policy settlement applies.
    pub yield_mode: YieldMode,
    /// Mock yield rate in basis points (at most 10000).
    pub yield_rate: u32,
    /// Length of a round in clock units (at least 60).
    pub round_duration: u64,
    /// Smallest accepted deposit (positive).
    pub min_deposit: i128,
}

/// One lottery period.
#[derive(Clone, Copy, Debug, PartialEq, Eq)]
pub struct Round {
    /// Monotonically increasing identifier, starting at 1.
    pub id: u32,
    /// When the round opened.
    pub start_time: u64,
    /// When entries close; strictly after `start_time`.
    pub end_time: u64,
    /// Jackpot seed plus every deposit recorded for this round.
    pub total_deposits: i128,
    /// Yield computed at settlement; zero while the round is open.
    pub total_yield: i128,
    /// The selected winner; set only on the winner-selection path.
    pub winner: Option<u64>,
    /// Whether this is the round currently accepting entries.
    pub is_active: bool,
    /// How many players entered.
    pub player_count: u32,
}

/// One participant's stake in one round.
#[derive(Clone, Copy, Debug, PartialEq, Eq)]
pub struct PlayerEntry {
    /// The participant.
    pub player: u64,
    /// The staked amount; at least the configured minimum.
    pub deposit: i128,
    /// The round the stake belongs to.
    pub round_id: u32,
    /// Whether the refund for this entry was paid.
    pub has_claimed: bool,
}

/// Aggregate counters over the pool's whole history.
#[derive(Clone, Copy, Debug, PartialEq, Eq)]
pub struct GlobalStats {
    /// Settled rounds so far (current round id minus one).
    pub total_rounds: u32,
    /// Sum of all deposits ever entered.
    pub total_volume: i128,
    /// Count of entry operations (not unique accounts).
    pub total_players: u32,
    /// Reporting estimate of prizes paid: one percent of the volume.
    pub total_prizes_paid: i128,
}

/// One action submitted to the external yield pool.
#[derive(Clone, Copy, Debug, PartialEq, Eq)]
pub struct Request {
    /// 0 supply, 1 withdraw, 2 supply collateral, 3 withdraw collateral.
    pub request_type: u32,
    /// The asset the request moves.
    pub address: u64,
    /// The amount the request moves.
    pub amount: i128,
}

/// A principal repayment owed to one player.
#[derive(Clone, Copy, Debug, PartialEq, Eq)]
pub struct Refund {
    /// Who is repaid.
    pub player: u64,
    /// How much is repaid.
    pub amount: i128,
}

/// What a successful entry obliges the embedding contract to do.
#[derive(Clone, Copy, Debug, PartialEq, Eq)]
pub struct EnterOutcome {
    /// The round the entry was recorded in.
    pub round_id: u32,
    /// The deposit pulled from the player into the pool.
    pub amount: i128,
    /// Staking request for the external pool, when that policy is active.
    pub supply: Option<Request>,
}

/// How a settlement ended.
#[derive(Clone, Debug, PartialEq, Eq)]
pub enum SettleOutcome {
    /// At least three players entered: one of them takes the prize.
    Winner {
        /// The settled round.
        round_id: u32,
        /// The selected player.
        winner: u64,
        /// The winner's own deposit plus the round's yield.
        prize: i128,
        /// Unstaking request for the external pool, when that policy is active.
        withdraw: Option<Request>,
    },
    /// Fewer than three players entered: principals are repaid and the yield
    /// seeds the next round.
    Jackpot {
        /// The round that closed without a winner.
        completed_round: u32,
        /// The freshly opened round, pre-seeded with the yield.
        new_round: u32,
        /// The yield carried into the new round's deposits.
        rolled: i128,
        /// Principal repayments owed, in entry order.
        refunds: Vec<Refund>,
        /// Unstaking request for the external pool, when that policy is active.
        withdraw: Option<Request>,
    },
}

} // verus!
