//! A pooled-deposit lottery with yield-funded prizes.
//!
//! Participants deposit a stable-value asset into a shared pool for a fixed
//! time window (a round). At round end either a winner is drawn and receives
//! their deposit plus the accrued yield, or — if fewer than three players
//! joined — all deposits are refunded and the round's yield rolls forward as
//! a jackpot seed for the next round. Losing participants reclaim their
//! principal through an explicit claim.
//!
//! The crate verifies the round lifecycle and settlement engine: round
//! transitions, the bookkeeping that keeps every deposited unit accounted for
//! exactly once, the yield-computation policies, winner selection, and the
//! refund ledger that prevents double payment. Host concerns — the keyed
//! persistent store, caller authentication, token transfers and event
//! publication — are left to the embedding contract, which hands this library
//! plain values and carries out the transfers it reports back.

pub mod errors;
pub mod types;
pub mod model;
pub mod lottery;
pub mod token;
