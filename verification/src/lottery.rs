//! The lottery pool: round registry, entry ledger, settlement engine and
//! stats aggregator, as one verified state machine.
//!
//! Every operation is a single all-or-nothing step: it either succeeds and
//! reports the transfers the embedding contract must carry out, or returns an
//! error and leaves the state untouched. The embedding contract authenticates
//! callers, reads the clock and performs the reported transfers; it passes
//! those facts in as plain values.

use vstd::prelude::*;
use crate::errors::LotteryError;
use crate::model::{
    entry_index, entry_total_of, find_entry, has_entry, refund_share, sum_deposits, volume_of,
    winner_index, withdraw_amount, yield_for, SECONDS_PER_YEAR,
};
use crate::types::{
    EnterOutcome, GlobalStats, LotteryConfig, PlayerEntry, Refund, Request, Round,
    SettleOutcome, YieldMode,
};

verus! {

/// The whole persisted state of the lottery pool contract.
///
/// Rounds are kept forever: the record, entry ledger and jackpot seed of
/// round `i` sit at index `i - 1`. Exactly one round — the newest — is
/// active at any time.
pub struct LotteryPool {
    /// Whether `initialize` has run.
    pub initialized: bool,
    /// Configuration persisted at initialization; meaningless before it.
    pub config: LotteryConfig,
    /// Id of the round currently accepting entries; 0 before initialization.
    pub current_round: u32,
    /// One record per round, in id order.
    pub rounds: Vec<Round>,
    /// One entry ledger per round, in entry order.
    pub entries: Vec<Vec<PlayerEntry>>,
    /// The jackpot seed each round opened with (0 except after a rollover).
    pub seeds: Vec<i128>,
    /// Sum of all deposits ever entered.
    pub total_volume: i128,
    /// Count of entry operations ever made.
    pub total_players: u32,
}

impl LotteryPool {
    /// A configuration is valid when the rate is at most 100 percent in
    /// basis points, the round lasts at least a minute and the minimum
    /// deposit is positive.
    pub open spec fn config_wf(c: LotteryConfig) -> bool {
        &&& c.yield_rate <= 10000
        &&& c.round_duration >= 60
        &&& c.min_deposit > 0
    }

    /// Whether a round with this id exists.
    pub open spec fn valid_round_id(self, round_id: u32) -> bool {
        1 <= round_id <= self.current_round
    }

    /// The record of round `round_id`.
    pub open spec fn round_at(self, round_id: u32) -> Round {
        self.rounds@[round_id - 1]
    }

    /// The entry ledger of round `round_id`, in entry order.
    pub open spec fn round_entries(self, round_id: u32) -> Seq<PlayerEntry> {
        self.entries@[round_id - 1]@
    }

    /// The jackpot seed round `round_id` opened with.
    pub open spec fn round_seed(self, round_id: u32) -> i128 {
        self.seeds@[round_id - 1]
    }

    /// Well-formedness of the round at 0-based index `i`: ids are positional,
    /// only the newest round is active, every deposited unit is accounted for
    /// (seed plus ledger sum equals the recorded total), entries belong to
    /// the round and respect the minimum, players are distinct, and a claim
    /// mark exists only for a settled, won round and never for its winner.
    pub open spec fn round_wf(self, i: int) -> bool {
        let r = self.rounds@[i];
        let es = self.entries@[i]@;
        let seed = self.seeds@[i];
        &&& r.id == i + 1
        &&& (r.is_active <==> i == self.current_round - 1)
        &&& r.end_time > r.start_time
        &&& seed >= 0
        &&& r.total_deposits == seed + sum_deposits(es)
        &&& r.player_count == es.len()
        &&& r.total_yield >= 0
        &&& (r.is_active ==> r.winner is None && r.total_yield == 0)
        &&& (r.winner is Some ==> has_entry(es, r.winner->0))
        &&& forall|j: int| 0 <= j < es.len() ==> {
            &&& (#[trigger] es[j]).round_id == i + 1
            &&& es[j].deposit >= self.config.min_deposit
            &&& (es[j].has_claimed ==> r.winner is Some && r.winner != Some(es[j].player))
        }
        &&& forall|j: int, k: int|
            0 <= j < k < es.len() ==> es[j].player != es[k].player
    }

    /// Well-formedness of the whole state. Before initialization everything
    /// is empty; afterwards the three per-round vectors stay in lockstep
    /// with the current-round pointer, every round is well-formed, and the
    /// global counters equal what the ledgers say.
    pub open spec fn wf(self) -> bool {
        &&& (!self.initialized ==> {
            &&& self.current_round == 0
            &&& self.rounds@.len() == 0
            &&& self.entries@.len() == 0
            &&& self.seeds@.len() == 0
            &&& self.total_volume == 0
            &&& self.total_players == 0
        })
        &&& (self.initialized ==> {
            &&& Self::config_wf(self.config)
            &&& self.current_round >= 1
            &&& self.rounds@.len() == self.current_round
            &&& self.entries@.len() == self.current_round
            &&& self.seeds@.len() == self.current_round
            &&& forall|i: int| 0 <= i < self.current_round ==> self.round_wf(i)
            &&& self.total_volume == volume_of(self.entries@)
            &&& self.total_players == entry_total_of(self.entries@)
            &&& self.total_volume >= 0
        })
    }

    /// Whether an entry attempt would be accepted: the caller proved control
    /// of `player`, the pool is set up, the amount meets the minimum, the
    /// current round is open and not past its end, and the player has no
    /// entry in it yet.
    pub open spec fn can_enter(self, player: u64, amount: i128, now: u64, authorized: bool) -> bool {
        &&& authorized
        &&& self.initialized
        &&& amount >= self.config.min_deposit
        &&& self.round_at(self.current_round).is_active
        &&& now < self.round_at(self.current_round).end_time
        &&& !has_entry(self.round_entries(self.current_round), player)
    }

    /// Whether settlement would run: the pool is set up, the current round
    /// is open, its window has passed, and at least one player entered.
    pub open spec fn can_settle(self, now: u64) -> bool {
        &&& self.initialized
        &&& now >= self.round_at(self.current_round).end_time
        &&& self.round_at(self.current_round).is_active
        &&& self.round_entries(self.current_round).len() > 0
    }

    /// The yield settlement would record for the current round, given the
    /// pool contract's asset balance under the external-pool policy.
    pub open spec fn settle_yield(self, pool_balance: i128) -> int {
        yield_for(
            self.config.yield_mode,
            self.round_at(self.current_round).total_deposits,
            self.config.yield_rate,
            self.config.round_duration,
            pool_balance,
        )
    }

    /// Machine limits a settlement needs: the round counter and the clock do
    /// not wrap, the yield arithmetic of the active policy stays within
    /// `i128`, and the house balance handed in is a balance (nonnegative).
    pub open spec fn settle_guards(self, now: u64, pool_balance: i128) -> bool {
        let td = self.round_at(self.current_round).total_deposits;
        let y = self.settle_yield(pool_balance);
        &&& self.current_round < u32::MAX
        &&& now + self.config.round_duration <= u64::MAX
        &&& (self.config.yield_mode is RateTimeMock ==> td * self.config.yield_rate
            * self.config.round_duration <= i128::MAX)
        &&& (self.config.yield_mode is ExternalPoolIntegration ==> {
            &&& pool_balance >= 0
            &&& td * 9999 <= i128::MAX
            &&& td * withdraw_amount(td) <= i128::MAX
        })
        &&& td + y <= i128::MAX
    }

    /// An empty, uninitialized pool.
    pub fn new() -> (r: Self)
        ensures
            r.wf(),
            !r.initialized,
            r.current_round == 0,
    {
        LotteryPool {
            initialized: false,
            config: LotteryConfig {
                admin: 0,
                usdc_token: 0,
                blend_pool: 0,
                yield_mode: YieldMode::NoYield,
                yield_rate: 0,
                round_duration: 0,
                min_deposit: 0,
            },
            current_round: 0,
            rounds: Vec::new(),
            entries: Vec::new(),
            seeds: Vec::new(),
            total_volume: 0,
            total_players: 0,
        }
    }

    /// Whether `initialize` has run.
    pub fn is_initialized(&self) -> (r: bool)
        ensures
            r == self.initialized,
    {
        self.initialized
    }

    /// One-time setup: persists the configuration, zeroes the global stats
    /// and opens round 1, closing `round_duration` clock units from `now`.
    ///
    /// Fails with `AlreadyInitialized` on a second run, `Unauthorized` when
    /// the caller did not prove control of `admin`, and `InvalidConfig` when
    /// the rate exceeds 10000 basis points, the minimum deposit is not
    /// positive or the duration is under 60 clock units.
    pub fn initialize(
        &mut self,
        admin: u64,
        usdc_token: u64,
        blend_pool: u64,
        yield_mode: YieldMode,
        yield_rate: u32,
        round_duration: u64,
        min_deposit: i128,
        now: u64,
        authorized: bool,
    ) -> (r: Result<(), LotteryError>)
        requires
            old(self).wf(),
            !old(self).initialized && authorized && yield_rate <= 10000 && min_deposit > 0
                && round_duration >= 60 ==> now + round_duration <= u64::MAX,
        ensures
            final(self).wf(),
            old(self).initialized ==> r == Err::<(), LotteryError>(
                LotteryError::AlreadyInitialized,
            ) && *final(self) == *old(self),
            !old(self).initialized && !authorized ==> r == Err::<(), LotteryError>(
                LotteryError::Unauthorized,
            ) && *final(self) == *old(self),
            !old(self).initialized && authorized && !(yield_rate <= 10000 && min_deposit > 0
                && round_duration >= 60) ==> r == Err::<(), LotteryError>(
                LotteryError::InvalidConfig,
            ) && *final(self) == *old(self),
            !old(self).initialized && authorized && yield_rate <= 10000 && min_deposit > 0
                && round_duration >= 60 ==> {
                &&& r == Ok::<(), LotteryError>(())
                &&& final(self).initialized
                &&& final(self).config == (LotteryConfig {
                    admin,
                    usdc_token,
                    blend_pool,
                    yield_mode,
                    yield_rate,
                    round_duration,
                    min_deposit,
                })
                &&& final(self).current_round == 1
                &&& final(self).rounds@.len() == 1
                &&& final(self).rounds@[0] == (Round {
                    id: 1,
                    start_time: now,
                    end_time: (now + round_duration) as u64,
                    total_deposits: 0,
                    total_yield: 0,
                    winner: None,
                    is_active: true,
                    player_count: 0,
                })
                &&& final(self).round_entries(1).len() == 0
                &&& final(self).round_seed(1) == 0
                &&& final(self).total_volume == 0
                &&& final(self).total_players == 0
            },
    {
        if self.initialized {
            return Err(LotteryError::AlreadyInitialized);
        }
        if !authorized {
            return Err(LotteryError::Unauthorized);
        }
        if yield_rate > 10000 || min_deposit <= 0 || round_duration < 60 {
            return Err(LotteryError::InvalidConfig);
        }
        self.config = LotteryConfig {
            admin,
            usdc_token,
            blend_pool,
            yield_mode,
            yield_rate,
            round_duration,
            min_deposit,
        };
        self.current_round = 1;
        self.rounds.push(
            Round {
                id: 1,
                start_time: now,
                end_time: now + round_duration,
                total_deposits: 0,
                total_yield: 0,
                winner: None,
                is_active: true,
                player_count: 0,
            },
        );
        self.entries.push(Vec::new());
        self.seeds.push(0);
        self.total_volume = 0;
        self.total_players = 0;
        self.initialized = true;
        proof {
            let es = self.entries@;
            assert(es.drop_last().len() == 0);
            assert(volume_of(es.drop_last()) == 0);
            assert(entry_total_of(es.drop_last()) == 0);
            assert(es.last()@.len() == 0);
            assert(volume_of(es) == 0);
            assert(entry_total_of(es) == 0);
            assert(self.round_wf(0));
        }
        Ok(())
    }

    /// Records a deposit in the current round: pulls `amount` from the
    /// player (the embedding contract performs the reported transfer and,
    /// under the external-pool policy, the reported staking request),
    /// appends the entry, and bumps the round and global counters.
    ///
    /// The checks run in order, first failure wins: authentication, setup,
    /// minimum deposit, round open, round not past its end, no entry yet.
    /// Any failure leaves the state untouched.
    #[verifier::loop_isolation(false)]
    pub fn enter_lottery(
        &mut self,
        player: u64,
        amount: i128,
        now: u64,
        authorized: bool,
    ) -> (r: Result<EnterOutcome, LotteryError>)
        requires
            old(self).wf(),
            old(self).can_enter(player, amount, now, authorized) ==> {
                &&& old(self).round_at(old(self).current_round).total_deposits + amount
                    <= i128::MAX
                &&& old(self).total_volume + amount <= i128::MAX
                &&& old(self).total_players < u32::MAX
            },
        ensures
            final(self).wf(),
            r is Ok <==> old(self).can_enter(player, amount, now, authorized),
            !authorized ==> r == Err::<EnterOutcome, LotteryError>(LotteryError::Unauthorized)
                && *final(self) == *old(self),
            authorized && !old(self).initialized ==> r == Err::<EnterOutcome, LotteryError>(
                LotteryError::NotInitialized,
            ) && *final(self) == *old(self),
            authorized && old(self).initialized && amount < old(self).config.min_deposit ==> r
                == Err::<EnterOutcome, LotteryError>(LotteryError::BelowMinimum) && *final(self)
                == *old(self),
            authorized && old(self).initialized && amount >= old(self).config.min_deposit
                && !old(self).round_at(old(self).current_round).is_active ==> r == Err::<
                EnterOutcome,
                LotteryError,
            >(LotteryError::RoundInactive) && *final(self) == *old(self),
            authorized && old(self).initialized && amount >= old(self).config.min_deposit
                && old(self).round_at(old(self).current_round).is_active && now >= old(self).round_at(old(self).current_round).end_time ==> r == Err::<
                EnterOutcome,
                LotteryError,
            >(LotteryError::RoundEnded) && *final(self) == *old(self),
            authorized && old(self).initialized && amount >= old(self).config.min_deposit
                && old(self).round_at(old(self).current_round).is_active && now < old(self).round_at(old(self).current_round).end_time && has_entry(
                old(self).round_entries(old(self).current_round),
                player,
            ) ==> r == Err::<EnterOutcome, LotteryError>(LotteryError::DuplicateEntry) && *final(self) == *old(self),
            old(self).can_enter(player, amount, now, authorized) ==> {
                let cr = old(self).current_round;
                let oldr = old(self).round_at(cr);
                let e = PlayerEntry { player, deposit: amount, round_id: cr, has_claimed: false };
                &&& r == Ok::<EnterOutcome, LotteryError>(EnterOutcome {
                    round_id: cr,
                    amount,
                    supply: if old(self).config.yield_mode is ExternalPoolIntegration {
                        Some(Request {
                            request_type: 2,
                            address: old(self).config.usdc_token,
                            amount,
                        })
                    } else {
                        None
                    },
                })
                &&& final(self).initialized && final(self).config == old(self).config
                &&& final(self).current_round == cr
                &&& final(self).rounds@.len() == old(self).rounds@.len()
                &&& final(self).round_at(cr) == (Round {
                    total_deposits: (oldr.total_deposits + amount) as i128,
                    player_count: (oldr.player_count + 1) as u32,
                    ..oldr
                })
                &&& forall|k: int|
                    0 <= k < old(self).rounds@.len() && k != cr - 1 ==> final(self).rounds@[k]
                        == old(self).rounds@[k]
                &&& final(self).entries@.len() == old(self).entries@.len()
                &&& final(self).round_entries(cr) == old(self).round_entries(cr).push(e)
                &&& forall|k: int|
                    0 <= k < old(self).entries@.len() && k != cr - 1 ==> final(self).entries@[k]
                        == old(self).entries@[k]
                &&& final(self).seeds@ == old(self).seeds@
                &&& final(self).total_volume == old(self).total_volume + amount
                &&& final(self).total_players == old(self).total_players + 1
            },
    {
        if !authorized {
            return Err(LotteryError::Unauthorized);
        }
        if !self.initialized {
            return Err(LotteryError::NotInitialized);
        }
        if amount < self.config.min_deposit {
            return Err(LotteryError::BelowMinimum);
        }
        let idx = (self.current_round - 1) as usize;
        let round = self.rounds[idx];
        if !round.is_active {
            return Err(LotteryError::RoundInactive);
        }
        if now >= round.end_time {
            return Err(LotteryError::RoundEnded);
        }
        let ghost gs = self.round_entries(self.current_round);
        let n = self.entries[idx].len();
        let mut i: usize = 0;
        while i < n
            invariant
                i <= n,
                forall|k: int| 0 <= k < i ==> gs[k].player != player,
            decreases n - i,
        {
            if self.entries[idx][i].player == player {
                proof {
                    crate::model::lemma_entry_index_is_first(gs, player, i as int);
                }
                return Err(LotteryError::DuplicateEntry);
            }
            i = i + 1;
        }
        proof {
            crate::model::lemma_entry_index(gs, player);
            if entry_index(gs, player) >= 0 {
                assert(gs[entry_index(gs, player)].player == player);
            }
            assert(!has_entry(gs, player));
            assert(self.can_enter(player, amount, now, authorized));
            assert(self.round_wf(idx as int));
            crate::model::lemma_len_le_entry_total(self.entries@, idx as int);
            assert(self.rounds@[idx as int].player_count < u32::MAX);
        }
        let entry = PlayerEntry {
            player,
            deposit: amount,
            round_id: self.current_round,
            has_claimed: false,
        };
        self.entries[idx].push(entry);
        self.rounds[idx].total_deposits = self.rounds[idx].total_deposits + amount;
        self.rounds[idx].player_count = self.rounds[idx].player_count + 1;
        self.total_volume = self.total_volume + amount;
        self.total_players = self.total_players + 1;
        proof {
            let cr = old(self).current_round;
            let i = cr - 1;
            let oes = old(self).round_entries(cr);
            let nes = self.round_entries(cr);
            assert(old(self).round_wf(i));
            crate::model::lemma_sum_deposits_push(oes, entry);
            crate::model::lemma_volume_of_update(old(self).entries@, i, self.entries@[i]);
            assert(nes == oes.push(entry));
            assert forall|j: int| 0 <= j < nes.len() implies {
                &&& (#[trigger] nes[j]).round_id == i + 1
                &&& nes[j].deposit >= self.config.min_deposit
                &&& (nes[j].has_claimed ==> self.rounds@[i].winner is Some
                    && self.rounds@[i].winner != Some(nes[j].player))
            } by {
                if j < oes.len() {
                    assert(nes[j] == oes[j]);
                } else {
                    assert(nes[j] == entry);
                }
            };
            assert forall|j: int, k: int|
                0 <= j < k < nes.len() implies nes[j].player != nes[k].player by {
                assert(nes[j] == oes[j]);
                if k < oes.len() {
                    assert(nes[k] == oes[k]);
                    assert(oes[j].player != oes[k].player);
                } else {
                    assert(nes[k] == entry);
                    assert(oes[j].player != player);
                }
            };
            assert(self.round_wf(i));
            assert forall|i2: int| 0 <= i2 < self.current_round implies self.round_wf(i2) by {
                if i2 != i {
                    assert(old(self).round_wf(i2));
                }
            };
        }
        Ok(
            EnterOutcome {
                round_id: self.current_round,
                amount,
                supply: match self.config.yield_mode {
                    YieldMode::ExternalPoolIntegration => Some(
                        Request { request_type: 2, address: self.config.usdc_token, amount },
                    ),
                    _ => None,
                },
            },
        )
    }

    /// Settles the current round once its window has passed: records the
    /// active policy's yield, then either selects a winner (three or more
    /// players) or rolls the yield into a fresh round as a jackpot (fewer),
    /// and opens the next round either way. The outcome carries every
    /// transfer the embedding contract must perform: the winner's prize, or
    /// each player's principal refund, plus the external-pool withdrawal
    /// under that policy.
    ///
    /// The winner sits at position `(now XOR sequence) mod count` of the
    /// entry-ordered player list. Both inputs are publicly observable ledger
    /// values — a predictable seed, a known weakness of this design.
    #[verifier::loop_isolation(false)]
    pub fn pick_winner(&mut self, now: u64, sequence: u32, pool_balance: i128) -> (r: Result<
        SettleOutcome,
        LotteryError,
    >)
        requires
            old(self).wf(),
            old(self).can_settle(now) ==> old(self).settle_guards(now, pool_balance),
        ensures
            final(self).wf(),
            r is Ok <==> old(self).can_settle(now),
            !old(self).initialized ==> r == Err::<SettleOutcome, LotteryError>(
                LotteryError::NotInitialized,
            ) && *final(self) == *old(self),
            old(self).initialized && now < old(self).round_at(
                old(self).current_round,
            ).end_time ==> r == Err::<SettleOutcome, LotteryError>(LotteryError::RoundNotEnded)
                && *final(self) == *old(self),
            old(self).initialized && now >= old(self).round_at(old(self).current_round).end_time
                && old(self).round_entries(old(self).current_round).len() == 0 ==> r == Err::<
                SettleOutcome,
                LotteryError,
            >(LotteryError::NoPlayers) && *final(self) == *old(self),
            old(self).can_settle(now) ==> ({
                let cr = old(self).current_round;
                let r0 = old(self).round_at(cr);
                let es = old(self).round_entries(cr);
                let n = es.len() as int;
                let y = old(self).settle_yield(pool_balance);
                let wa = withdraw_amount(r0.total_deposits);
                let wreq: Option<Request> = if old(
                    self,
                ).config.yield_mode is ExternalPoolIntegration {
                    Some(
                        Request {
                            request_type: 3,
                            address: old(self).config.usdc_token,
                            amount: wa as i128,
                        },
                    )
                } else {
                    None
                };
                let widx = winner_index(now, sequence, n as u64) as int;
                let seed_amt: int = if n < 3 {
                    y
                } else {
                    0
                };
                &&& final(self).initialized && final(self).config == old(self).config
                &&& final(self).current_round == cr + 1
                &&& final(self).rounds@.len() == cr + 1
                &&& final(self).entries@.len() == cr + 1
                &&& final(self).seeds@ == old(self).seeds@.push(seed_amt as i128)
                &&& forall|k: int|
                    0 <= k < cr - 1 ==> final(self).rounds@[k] == old(self).rounds@[k]
                &&& forall|k: int| 0 <= k < cr ==> final(self).entries@[k] == old(self).entries@[k]
                &&& final(self).round_entries((cr + 1) as u32).len() == 0
                &&& final(self).round_at(cr) == (Round {
                    total_yield: y as i128,
                    is_active: false,
                    winner: if n >= 3 {
                        Some(es[widx].player)
                    } else {
                        None::<u64>
                    },
                    ..r0
                })
                &&& final(self).round_at((cr + 1) as u32) == (Round {
                    id: (cr + 1) as u32,
                    start_time: now,
                    end_time: (now + old(self).config.round_duration) as u64,
                    total_deposits: seed_amt as i128,
                    total_yield: 0,
                    winner: None::<u64>,
                    is_active: true,
                    player_count: 0,
                })
                &&& final(self).total_volume == old(self).total_volume
                &&& final(self).total_players == old(self).total_players
                &&& (n >= 3 ==> (r matches Ok(SettleOutcome::Winner {
                    round_id,
                    winner,
                    prize,
                    withdraw,
                }) && round_id == cr && winner == es[widx].player && prize == es[widx].deposit + y
                    && withdraw == wreq))
                &&& (n < 3 ==> (r matches Ok(SettleOutcome::Jackpot {
                    completed_round,
                    new_round,
                    rolled,
                    refunds,
                    withdraw,
                }) && completed_round == cr && new_round == cr + 1 && rolled == y && refunds@.len()
                    == n && (forall|k: int|
                    0 <= k < n ==> (#[trigger] refunds@[k]).player == es[k].player
                        && refunds@[k].amount == (if old(
                        self,
                    ).config.yield_mode is ExternalPoolIntegration {
                        refund_share(es[k].deposit, wa, r0.total_deposits)
                    } else {
                        es[k].deposit as int
                    })) && withdraw == wreq))
            }),
    {
        if !self.initialized {
            return Err(LotteryError::NotInitialized);
        }
        let idx = (self.current_round - 1) as usize;
        proof {
            assert(self.round_wf(idx as int));
        }
        let round = self.rounds[idx];
        if now < round.end_time {
            return Err(LotteryError::RoundNotEnded);
        }
        if !round.is_active {
            return Err(LotteryError::RoundInactive);
        }
        let n = self.entries[idx].len();
        if n == 0 {
            return Err(LotteryError::NoPlayers);
        }
        let cr = self.current_round;
        let cfg = self.config;
        let td = round.total_deposits;
        let ghost es = self.round_entries(cr);
        proof {
            assert(old(self).can_settle(now));
            assert(old(self).settle_guards(now, pool_balance));
            assert forall|k: int| 0 <= k < es.len() implies (#[trigger] es[k]).deposit >= 0 by {
                assert(es[k].deposit >= cfg.min_deposit);
            };
            crate::model::lemma_sum_deposits_nonneg(es);
            crate::model::lemma_deposit_le_sum(es, 0);
            assert(td > 0);
        }
        let yield_amount: i128 = match cfg.yield_mode {
            YieldMode::NoYield => 0,
            YieldMode::RateTimeMock => {
                proof {
                    vstd::arithmetic::mul::lemma_mul_upper_bound(
                        cfg.yield_rate as int,
                        10000,
                        cfg.round_duration as int,
                        u64::MAX as int,
                    );
                    vstd::arithmetic::mul::lemma_mul_is_associative(
                        td as int,
                        cfg.yield_rate as int,
                        cfg.round_duration as int,
                    );
                    vstd::arithmetic::mul::lemma_mul_nonnegative(
                        td as int,
                        (cfg.yield_rate as int) * (cfg.round_duration as int),
                    );
                }
                let rate_dur: i128 = (cfg.yield_rate as i128) * (cfg.round_duration as i128);
                let num: i128 = td * rate_dur;
                let denom: i128 = (SECONDS_PER_YEAR as i128) * 10000;
                proof {
                    vstd::arithmetic::div_mod::lemma_div_pos_is_pos(num as int, denom as int);
                }
                num / denom
            },
            YieldMode::ExternalPoolIntegration => pool_balance / 20,
        };
        proof {
            assert(yield_amount == old(self).settle_yield(pool_balance));
            assert(yield_amount >= 0);
        }
        let mut wa: i128 = 0;
        let withdraw_req: Option<Request> = match cfg.yield_mode {
            YieldMode::ExternalPoolIntegration => {
                proof {
                    vstd::arithmetic::mul::lemma_mul_nonnegative(td as int, 9999);
                    vstd::arithmetic::div_mod::lemma_div_pos_is_pos(td as int * 9999, 10000);
                }
                wa = td * 9999 / 10000;
                Some(Request { request_type: 3, address: cfg.usdc_token, amount: wa })
            },
            _ => None,
        };
        let new_id = cr + 1;
        let end_time = now + cfg.round_duration;
        if n < 3 {
            let mut refunds: Vec<Refund> = Vec::new();
            let mut j: usize = 0;
            while j < n
                invariant
                    j <= n,
                    refunds@.len() == j,
                    forall|k: int|
                        0 <= k < j ==> (#[trigger] refunds@[k]).player == es[k].player
                            && refunds@[k].amount == (if cfg.yield_mode
                            is ExternalPoolIntegration {
                            refund_share(es[k].deposit, wa as int, td)
                        } else {
                            es[k].deposit as int
                        }),
                decreases n - j,
            {
                let e = self.entries[idx][j];
                let amt: i128 = match cfg.yield_mode {
                    YieldMode::ExternalPoolIntegration => {
                        proof {
                            crate::model::lemma_deposit_le_sum(es, j as int);
                            vstd::arithmetic::mul::lemma_mul_inequality(
                                e.deposit as int,
                                td as int,
                                wa as int,
                            );
                            vstd::arithmetic::mul::lemma_mul_nonnegative(
                                e.deposit as int,
                                wa as int,
                            );
                            vstd::arithmetic::div_mod::lemma_div_pos_is_pos(
                                e.deposit as int * wa as int,
                                td as int,
                            );
                        }
                        e.deposit * wa / td
                    },
                    _ => e.deposit,
                };
                refunds.push(Refund { player: e.player, amount: amt });
                j = j + 1;
            }
            self.rounds[idx].is_active = false;
            self.rounds[idx].total_yield = yield_amount;
            self.rounds.push(
                Round {
                    id: new_id,
                    start_time: now,
                    end_time,
                    total_deposits: yield_amount,
                    total_yield: 0,
                    winner: None,
                    is_active: true,
                    player_count: 0,
                },
            );
            self.entries.push(Vec::new());
            self.seeds.push(yield_amount);
            self.current_round = new_id;
            proof {
                let i = cr - 1;
                crate::model::lemma_volume_of_push(old(self).entries@, self.entries@[cr as int]);
                assert(self.round_entries(cr) == es);
                assert(self.entries@[cr as int]@.len() == 0);
                assert forall|j: int| 0 <= j < es.len() implies !(#[trigger] es[j]).has_claimed by {
                    assert(old(self).round_wf(i));
                };
                assert(self.round_wf(i));
                assert(self.round_wf(cr as int));
                assert forall|i2: int| 0 <= i2 < self.current_round implies self.round_wf(i2) by {
                    if i2 < i {
                        assert(old(self).round_wf(i2));
                    }
                };
            }
            Ok(
                SettleOutcome::Jackpot {
                    completed_round: cr,
                    new_round: new_id,
                    rolled: yield_amount,
                    refunds,
                    withdraw: withdraw_req,
                },
            )
        } else {
            let seed_val: u64 = now ^ (sequence as u64);
            let widx64: u64 = seed_val % (n as u64);
            proof {
                assert(widx64 < n as u64);
            }
            let widx: usize = widx64 as usize;
            let wentry = self.entries[idx][widx];
            proof {
                crate::model::lemma_deposit_le_sum(es, widx as int);
            }
            let prize: i128 = wentry.deposit + yield_amount;
            self.rounds[idx].is_active = false;
            self.rounds[idx].total_yield = yield_amount;
            self.rounds[idx].winner = Some(wentry.player);
            self.rounds.push(
                Round {
                    id: new_id,
                    start_time: now,
                    end_time,
                    total_deposits: 0,
                    total_yield: 0,
                    winner: None,
                    is_active: true,
                    player_count: 0,
                },
            );
            self.entries.push(Vec::new());
            self.seeds.push(0);
            self.current_round = new_id;
            proof {
                let i = cr - 1;
                crate::model::lemma_entry_index(es, wentry.player);
                if entry_index(es, wentry.player) < 0 {
                    assert(es[widx as int].player == wentry.player);
                }
                assert(has_entry(es, wentry.player));
                crate::model::lemma_volume_of_push(old(self).entries@, self.entries@[cr as int]);
                assert(self.round_entries(cr) == es);
                assert(self.entries@[cr as int]@.len() == 0);
                assert forall|j: int| 0 <= j < es.len() implies !(#[trigger] es[j]).has_claimed by {
                    assert(old(self).round_wf(i));
                };
                assert(self.round_wf(i));
                assert(self.round_wf(cr as int));
                assert forall|i2: int| 0 <= i2 < self.current_round implies self.round_wf(i2) by {
                    if i2 < i {
                        assert(old(self).round_wf(i2));
                    }
                };
            }
            Ok(
                SettleOutcome::Winner {
                    round_id: cr,
                    winner: wentry.player,
                    prize,
                    withdraw: withdraw_req,
                },
            )
        }
    }

    /// The round currently accepting entries; `NotInitialized` before setup.
    pub fn get_current_round(&self) -> (r: Result<Round, LotteryError>)
        requires
            self.wf(),
        ensures
            self.initialized ==> r == Ok::<Round, LotteryError>(
                self.round_at(self.current_round),
            ),
            !self.initialized ==> r == Err::<Round, LotteryError>(LotteryError::NotInitialized),
    {
        if !self.initialized {
            return Err(LotteryError::NotInitialized);
        }
        Ok(self.rounds[(self.current_round - 1) as usize])
    }

    /// The record of an existing round.
    pub fn get_round(&self, round_id: u32) -> (r: Round)
        requires
            self.wf(),
            self.valid_round_id(round_id),
        ensures
            r == self.round_at(round_id),
    {
        self.rounds[(round_id - 1) as usize]
    }

    /// The entry a player holds in a round, if both exist.
    #[verifier::loop_isolation(false)]
    pub fn get_player_entry(&self, round_id: u32, player: u64) -> (r: Option<PlayerEntry>)
        requires
            self.wf(),
        ensures
            self.valid_round_id(round_id) ==> r == find_entry(
                self.round_entries(round_id),
                player,
            ),
            !self.valid_round_id(round_id) ==> r is None,
    {
        if round_id < 1 || round_id > self.current_round || !self.initialized {
            return None;
        }
        let es = &self.entries[(round_id - 1) as usize];
        let ghost gs = self.round_entries(round_id);
        let mut i: usize = 0;
        while i < es.len()
            invariant
                es@ == gs,
                i <= es@.len(),
                forall|k: int| 0 <= k < i ==> gs[k].player != player,
            decreases es@.len() - i,
        {
            if es[i].player == player {
                proof {
                    crate::model::lemma_entry_index_is_first(gs, player, i as int);
                }
                return Some(es[i]);
            }
            i = i + 1;
        }
        proof {
            crate::model::lemma_entry_index(gs, player);
            if entry_index(gs, player) >= 0 {
                assert(gs[entry_index(gs, player)].player == player);
            }
        }
        None
    }

    /// The players of a round in entry order; empty for an unknown round.
    #[verifier::loop_isolation(false)]
    pub fn get_players(&self, round_id: u32) -> (r: Vec<u64>)
        requires
            self.wf(),
        ensures
            self.valid_round_id(round_id) ==> {
                &&& r@.len() == self.round_entries(round_id).len()
                &&& forall|j: int|
                    0 <= j < r@.len() ==> r@[j] == self.round_entries(round_id)[j].player
            },
            !self.valid_round_id(round_id) ==> r@.len() == 0,
    {
        let mut players: Vec<u64> = Vec::new();
        if round_id < 1 || round_id > self.current_round || !self.initialized {
            return players;
        }
        let es = &self.entries[(round_id - 1) as usize];
        let ghost gs = self.round_entries(round_id);
        let mut i: usize = 0;
        while i < es.len()
            invariant
                es@ == gs,
                i <= es@.len(),
                players@.len() == i,
                forall|j: int| 0 <= j < i ==> players@[j] == gs[j].player,
            decreases es@.len() - i,
        {
            players.push(es[i].player);
            i = i + 1;
        }
        players
    }

    /// The derived global counters: settled rounds, historical volume, entry
    /// operations, and the one-percent-of-volume prize estimate.
    pub fn get_stats(&self) -> (r: GlobalStats)
        requires
            self.wf(),
        ensures
            r.total_rounds == if self.initialized {
                (self.current_round - 1) as u32
            } else {
                0u32
            },
            r.total_volume == self.total_volume,
            r.total_players == self.total_players,
            r.total_prizes_paid == self.total_volume as int / 100,
    {
        let total_rounds: u32 = if self.initialized {
            self.current_round - 1
        } else {
            0
        };
        GlobalStats {
            total_rounds,
            total_volume: self.total_volume,
            total_players: self.total_players,
            total_prizes_paid: self.total_volume / 100,
        }
    }

    /// Whether a refund claim for `(round_id, player)` would be paid: the
    /// round exists and settled on the winner-selection path, the claimant is
    /// a participant other than the winner, and the refund was not paid yet.
    pub open spec fn refund_eligible(self, player: u64, round_id: u32) -> bool {
        let es = self.round_entries(round_id);
        let j = entry_index(es, player);
        &&& self.valid_round_id(round_id)
        &&& !self.round_at(round_id).is_active
        &&& self.round_at(round_id).winner is Some
        &&& self.round_at(round_id).winner != Some(player)
        &&& j >= 0
        &&& !es[j].has_claimed
    }

    /// How a paid refund changes the state: the claimant's entry in the
    /// round is marked claimed, and nothing else moves.
    pub open spec fn claim_updates(pre: Self, post: Self, player: u64, round_id: u32) -> bool {
        let i = round_id - 1;
        let es = pre.round_entries(round_id);
        let j = entry_index(es, player);
        &&& post.initialized == pre.initialized
        &&& post.config == pre.config
        &&& post.current_round == pre.current_round
        &&& post.rounds@ == pre.rounds@
        &&& post.seeds@ == pre.seeds@
        &&& post.total_volume == pre.total_volume
        &&& post.total_players == pre.total_players
        &&& post.entries@.len() == pre.entries@.len()
        &&& forall|k: int|
            0 <= k < pre.entries@.len() && k != i ==> post.entries@[k] == pre.entries@[k]
        &&& post.round_entries(round_id) == es.update(
            j,
            PlayerEntry { has_claimed: true, ..es[j] },
        )
    }

    /// Pays a losing participant their principal back, once: reports the
    /// deposit the embedding contract must transfer from the pool to the
    /// player, and marks the entry claimed.
    ///
    /// The checks run in order, first failure wins: authentication, round
    /// exists, round settled, a winner was selected, the claimant is not the
    /// winner, the claimant entered, the refund was not paid before. Any
    /// failure leaves the state untouched. A round that rolled over into a
    /// jackpot never records a winner — its deposits were repaid during
    /// settlement, and claims on it keep failing with `WinnerNotSelected`.
    #[verifier::loop_isolation(false)]
    pub fn claim_refund(&mut self, player: u64, round_id: u32, authorized: bool) -> (r: Result<
        i128,
        LotteryError,
    >)
        requires
            old(self).wf(),
        ensures
            final(self).wf(),
            r is Ok <==> authorized && old(self).refund_eligible(player, round_id),
            !authorized ==> r == Err::<i128, LotteryError>(LotteryError::Unauthorized) && *final(self) == *old(self),
            authorized && !old(self).valid_round_id(round_id) ==> r == Err::<i128, LotteryError>(
                LotteryError::RoundNotFound,
            ) && *final(self) == *old(self),
            authorized && old(self).valid_round_id(round_id) && old(self).round_at(
                round_id,
            ).is_active ==> r == Err::<i128, LotteryError>(LotteryError::RoundNotEnded) && *final(self) == *old(self),
            authorized && old(self).valid_round_id(round_id) && !old(self).round_at(
                round_id,
            ).is_active && old(self).round_at(round_id).winner is None ==> r == Err::<
                i128,
                LotteryError,
            >(LotteryError::WinnerNotSelected) && *final(self) == *old(self),
            authorized && old(self).valid_round_id(round_id) && !old(self).round_at(
                round_id,
            ).is_active && old(self).round_at(round_id).winner == Some(player) ==> r == Err::<
                i128,
                LotteryError,
            >(LotteryError::NotEligibleForRefund) && *final(self) == *old(self),
            authorized && old(self).valid_round_id(round_id) && !old(self).round_at(
                round_id,
            ).is_active && old(self).round_at(round_id).winner is Some && old(self).round_at(
                round_id,
            ).winner != Some(player) && entry_index(
                old(self).round_entries(round_id),
                player,
            ) < 0 ==> r == Err::<i128, LotteryError>(LotteryError::NotEligibleForRefund) && *final(self) == *old(self),
            authorized && old(self).valid_round_id(round_id) && !old(self).round_at(
                round_id,
            ).is_active && old(self).round_at(round_id).winner is Some && old(self).round_at(
                round_id,
            ).winner != Some(player) && entry_index(old(self).round_entries(round_id), player)
                >= 0 && old(self).round_entries(round_id)[entry_index(
                old(self).round_entries(round_id),
                player,
            )].has_claimed ==> r == Err::<i128, LotteryError>(LotteryError::AlreadyClaimed)
                && *final(self) == *old(self),
            authorized && old(self).refund_eligible(player, round_id) ==> {
                let es = old(self).round_entries(round_id);
                &&& r == Ok::<i128, LotteryError>(es[entry_index(es, player)].deposit)
                &&& Self::claim_updates(*old(self), *final(self), player, round_id)
            },
    {
        if !authorized {
            return Err(LotteryError::Unauthorized);
        }
        if !self.initialized || round_id < 1 || round_id > self.current_round {
            return Err(LotteryError::RoundNotFound);
        }
        let idx = (round_id - 1) as usize;
        let round = self.rounds[idx];
        if round.is_active {
            return Err(LotteryError::RoundNotEnded);
        }
        let winner = match round.winner {
            Some(w) => w,
            None => {
                return Err(LotteryError::WinnerNotSelected);
            },
        };
        if winner == player {
            return Err(LotteryError::NotEligibleForRefund);
        }
        let ghost gs = self.round_entries(round_id);
        let n = self.entries[idx].len();
        let mut i: usize = 0;
        while i < n
            invariant
                i <= n,
                *self == *old(self),
                forall|k: int| 0 <= k < i ==> gs[k].player != player,
            decreases n - i,
        {
            if self.entries[idx][i].player == player {
                proof {
                    crate::model::lemma_entry_index_is_first(gs, player, i as int);
                }
                if self.entries[idx][i].has_claimed {
                    return Err(LotteryError::AlreadyClaimed);
                }
                let deposit = self.entries[idx][i].deposit;
                self.entries[idx][i].has_claimed = true;
                proof {
                    let ri = round_id - 1;
                    let e2 = PlayerEntry { has_claimed: true, ..gs[i as int] };
                    let nes = self.round_entries(round_id);
                    assert(old(self).round_wf(ri));
                    assert(nes == gs.update(i as int, e2));
                    crate::model::lemma_sum_deposits_update(gs, i as int, e2);
                    crate::model::lemma_volume_of_update(
                        old(self).entries@,
                        ri,
                        self.entries@[ri],
                    );
                    crate::model::lemma_entry_index_update_same_player(
                        gs,
                        i as int,
                        e2,
                        self.rounds@[ri].winner->0,
                    );
                    assert forall|j: int| 0 <= j < nes.len() implies {
                        &&& (#[trigger] nes[j]).round_id == ri + 1
                        &&& nes[j].deposit >= self.config.min_deposit
                        &&& (nes[j].has_claimed ==> self.rounds@[ri].winner is Some
                            && self.rounds@[ri].winner != Some(nes[j].player))
                    } by {
                        if j != i {
                            assert(nes[j] == gs[j]);
                        } else {
                            assert(nes[j] == e2);
                        }
                    };
                    assert forall|j: int, k: int|
                        0 <= j < k < nes.len() implies nes[j].player != nes[k].player by {
                        assert(gs[j].player != gs[k].player);
                        assert(nes[j].player == gs[j].player);
                        assert(nes[k].player == gs[k].player);
                    };
                    assert(self.round_wf(ri));
                    assert forall|i2: int|
                        0 <= i2 < self.current_round implies self.round_wf(i2) by {
                        if i2 != ri {
                            assert(old(self).round_wf(i2));
                        }
                    };
                }
                return Ok(deposit);
            }
            i = i + 1;
        }
        proof {
            crate::model::lemma_entry_index(gs, player);
            if entry_index(gs, player) >= 0 {
                assert(gs[entry_index(gs, player)].player == player);
            }
        }
        Err(LotteryError::NotEligibleForRefund)
    }

    /// Conservation: at every moment, a round's recorded total is exactly
    /// its jackpot seed plus the sum of the deposits on its ledger — and the
    /// deposits alone wherever the round opened unseeded.
    pub proof fn lemma_round_conservation(s: Self, round_id: u32)
        requires
            s.wf(),
            s.initialized,
            s.valid_round_id(round_id),
        ensures
            s.round_at(round_id).total_deposits == s.round_seed(round_id) + sum_deposits(
                s.round_entries(round_id),
            ),
            s.round_seed(round_id) == 0 ==> s.round_at(round_id).total_deposits == sum_deposits(
                s.round_entries(round_id),
            ),
    {
        assert(s.round_wf(round_id - 1));
    }

    /// No double entry: two distinct entries of one round always belong to
    /// two distinct players.
    pub proof fn lemma_no_double_entry(s: Self, round_id: u32, j: int, k: int)
        requires
            s.wf(),
            s.initialized,
            s.valid_round_id(round_id),
            0 <= j < k < s.round_entries(round_id).len(),
        ensures
            s.round_entries(round_id)[j].player != s.round_entries(round_id)[k].player,
    {
        assert(s.round_wf(round_id - 1));
    }

    /// A recorded entry blocks re-entry: in the state a successful
    /// `enter_lottery` leaves behind, no further entry of that player can be
    /// accepted for the round — the operation's contract rejects it with
    /// `DuplicateEntry` and changes nothing.
    pub proof fn lemma_enter_blocks_reentry(pre: Self, post: Self, player: u64, amount: i128)
        requires
            post.current_round == pre.current_round,
            post.round_entries(post.current_round) == pre.round_entries(
                pre.current_round,
            ).push(
                PlayerEntry {
                    player,
                    deposit: amount,
                    round_id: pre.current_round,
                    has_claimed: false,
                },
            ),
        ensures
            forall|amount2: i128, now2: u64, auth2: bool|
                !post.can_enter(player, amount2, now2, auth2),
    {
        crate::model::lemma_has_entry_after_push(
            pre.round_entries(pre.current_round),
            PlayerEntry {
                player,
                deposit: amount,
                round_id: pre.current_round,
                has_claimed: false,
            },
        );
    }

    /// No payment to the winner twice: the winner of a round is never
    /// eligible for a refund there, so `claim_refund`'s contract rejects the
    /// winner with `NotEligibleForRefund` and moves no funds.
    pub proof fn lemma_winner_cannot_claim(s: Self, round_id: u32, w: u64)
        requires
            s.round_at(round_id).winner == Some(w),
        ensures
            !s.refund_eligible(w, round_id),
    {
    }

    /// No double refund: after the state change of a successful claim, the
    /// same pair is no longer eligible, so `claim_refund`'s contract rejects
    /// a second attempt with `AlreadyClaimed` and moves no funds.
    pub proof fn lemma_claim_at_most_once(pre: Self, post: Self, player: u64, round_id: u32)
        requires
            pre.refund_eligible(player, round_id),
            Self::claim_updates(pre, post, player, round_id),
        ensures
            !post.refund_eligible(player, round_id),
    {
        let es = pre.round_entries(round_id);
        let j = entry_index(es, player);
        let e2 = PlayerEntry { has_claimed: true, ..es[j] };
        crate::model::lemma_entry_index(es, player);
        crate::model::lemma_entry_index_update_same_player(es, j, e2, player);
        assert(post.round_entries(round_id)[entry_index(
            post.round_entries(round_id),
            player,
        )].has_claimed);
    }

    /// Round monotonicity: ids are positional, so together with
    /// `pick_winner`'s guarantee that settlement moves the current-round
    /// pointer up by exactly one on either branch, ids strictly increase by
    /// one per settlement.
    pub proof fn lemma_round_ids_sequential(s: Self, round_id: u32)
        requires
            s.wf(),
            s.initialized,
            s.valid_round_id(round_id),
        ensures
            s.round_at(round_id).id == round_id,
    {
        assert(s.round_wf(round_id - 1));
    }
}

} // verus!
