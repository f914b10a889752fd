//! Mathematical model: sums over entry ledgers, first-occurrence lookup,
//! the yield formulas and the winner-selection formula.

use vstd::prelude::*;
use crate::types::{PlayerEntry, YieldMode};

verus! {

/// Clock units per year, used by the rate-times-duration yield formula.
pub const SECONDS_PER_YEAR: u64 = 31_536_000;

/// Sum of the deposits recorded in one round's entry ledger.
pub open spec fn sum_deposits(s: Seq<PlayerEntry>) -> int
    decreases s.len(),
{
    if s.len() == 0 {
        0
    } else {
        sum_deposits(s.drop_last()) + s.last().deposit
    }
}

/// Sum of the deposits over every round's ledger: the pool's historical volume.
pub open spec fn volume_of(rounds: Seq<Vec<PlayerEntry>>) -> int
    decreases rounds.len(),
{
    if rounds.len() == 0 {
        0
    } else {
        volume_of(rounds.drop_last()) + sum_deposits(rounds.last()@)
    }
}

/// Count of entry operations over every round's ledger.
pub open spec fn entry_total_of(rounds: Seq<Vec<PlayerEntry>>) -> int
    decreases rounds.len(),
{
    if rounds.len() == 0 {
        0
    } else {
        entry_total_of(rounds.drop_last()) + rounds.last()@.len()
    }
}

/// Index of the first entry a player holds in a ledger, or -1 if none.
pub open spec fn entry_index(s: Seq<PlayerEntry>, player: u64) -> int
    decreases s.len(),
{
    if s.len() == 0 {
        -1
    } else if s[0].player == player {
        0
    } else {
        let rest = entry_index(s.subrange(1, s.len() as int), player);
        if rest == -1 {
            -1
        } else {
            rest + 1
        }
    }
}

/// Whether a player holds an entry in a ledger.
pub open spec fn has_entry(s: Seq<PlayerEntry>, player: u64) -> bool {
    entry_index(s, player) >= 0
}

/// The entry a player holds in a ledger, if any.
pub open spec fn find_entry(s: Seq<PlayerEntry>, player: u64) -> Option<PlayerEntry> {
    if entry_index(s, player) >= 0 {
        Some(s[entry_index(s, player)])
    } else {
        None
    }
}

/// Yield of the rate-times-duration mock policy.
pub open spec fn mock_yield(total_deposits: i128, yield_rate: u32, round_duration: u64) -> int {
    total_deposits * yield_rate * round_duration / ((SECONDS_PER_YEAR as int) * 10000)
}

/// Yield recorded at settlement under the given policy. `pool_balance` is the
/// pool contract's asset balance before withdrawal (the house-held capital);
/// it matters only to the external-pool policy, which pays five percent of it.
pub open spec fn yield_for(
    mode: YieldMode,
    total_deposits: i128,
    yield_rate: u32,
    round_duration: u64,
    pool_balance: i128,
) -> int {
    match mode {
        YieldMode::NoYield => 0,
        YieldMode::RateTimeMock => mock_yield(total_deposits, yield_rate, round_duration),
        YieldMode::ExternalPoolIntegration => pool_balance / 20,
    }
}

/// What settlement withdraws from the external pool: the deposits less the
/// pool's fee haircut of one basis point.
pub open spec fn withdraw_amount(total_deposits: i128) -> int {
    total_deposits * 9999 / 10000
}

/// A jackpot refund under the external-pool policy: proportional to what was
/// actually withdrawn, so external fees are absorbed pro rata.
pub open spec fn refund_share(deposit: i128, withdrawn: int, total_deposits: i128) -> int {
    deposit * withdrawn / (total_deposits as int)
}

/// The winner's position in the entry-ordered player list: the ledger
/// timestamp XORed with the ledger sequence number, modulo the player count.
pub open spec fn winner_index(timestamp: u64, sequence: u32, player_count: u64) -> u64 {
    (timestamp ^ (sequence as u64)) % player_count
}

/// The winner index always addresses a player.
pub proof fn lemma_winner_index_in_range(timestamp: u64, sequence: u32, player_count: u64)
    requires
        player_count > 0,
    ensures
        winner_index(timestamp, sequence, player_count) < player_count,
{
}

/// Appending an entry grows the deposit sum by that entry's deposit.
pub proof fn lemma_sum_deposits_push(s: Seq<PlayerEntry>, e: PlayerEntry)
    ensures
        sum_deposits(s.push(e)) == sum_deposits(s) + e.deposit,
{
    assert(s.push(e).drop_last() =~= s);
    assert(s.push(e).last() == e);
}

/// Replacing an entry shifts the deposit sum by the difference of deposits.
pub proof fn lemma_sum_deposits_update(s: Seq<PlayerEntry>, j: int, e: PlayerEntry)
    requires
        0 <= j < s.len(),
    ensures
        sum_deposits(s.update(j, e)) == sum_deposits(s) - s[j].deposit + e.deposit,
    decreases s.len(),
{
    let s2 = s.update(j, e);
    if j == s.len() - 1 {
        assert(s2.drop_last() =~= s.drop_last());
        assert(s2.last() == e);
    } else {
        lemma_sum_deposits_update(s.drop_last(), j, e);
        assert(s2.drop_last() =~= s.drop_last().update(j, e));
        assert(s2.last() == s.last());
    }
}

/// A ledger of nonnegative deposits has a nonnegative sum.
pub proof fn lemma_sum_deposits_nonneg(s: Seq<PlayerEntry>)
    requires
        forall|k: int| 0 <= k < s.len() ==> s[k].deposit >= 0,
    ensures
        sum_deposits(s) >= 0,
    decreases s.len(),
{
    if s.len() > 0 {
        assert(forall|k: int|
            0 <= k < s.drop_last().len() ==> s.drop_last()[k].deposit >= 0);
        lemma_sum_deposits_nonneg(s.drop_last());
    }
}

/// In a ledger of nonnegative deposits, no single deposit exceeds the sum.
pub proof fn lemma_deposit_le_sum(s: Seq<PlayerEntry>, j: int)
    requires
        forall|k: int| 0 <= k < s.len() ==> s[k].deposit >= 0,
        0 <= j < s.len(),
    ensures
        s[j].deposit <= sum_deposits(s),
    decreases s.len(),
{
    assert(forall|k: int|
        0 <= k < s.drop_last().len() ==> s.drop_last()[k].deposit >= 0);
    if j == s.len() - 1 {
        lemma_sum_deposits_nonneg(s.drop_last());
    } else {
        lemma_deposit_le_sum(s.drop_last(), j);
    }
}

/// Appending a round's ledger grows the volume by that ledger's deposit sum.
pub proof fn lemma_volume_of_push(rounds: Seq<Vec<PlayerEntry>>, v: Vec<PlayerEntry>)
    ensures
        volume_of(rounds.push(v)) == volume_of(rounds) + sum_deposits(v@),
        entry_total_of(rounds.push(v)) == entry_total_of(rounds) + v@.len(),
{
    assert(rounds.push(v).drop_last() =~= rounds);
    assert(rounds.push(v).last() == v);
}

/// Replacing a round's ledger shifts the volume by the difference of sums.
pub proof fn lemma_volume_of_update(rounds: Seq<Vec<PlayerEntry>>, i: int, v: Vec<PlayerEntry>)
    requires
        0 <= i < rounds.len(),
    ensures
        volume_of(rounds.update(i, v)) == volume_of(rounds) - sum_deposits(rounds[i]@)
            + sum_deposits(v@),
        entry_total_of(rounds.update(i, v)) == entry_total_of(rounds) - rounds[i]@.len()
            + v@.len(),
    decreases rounds.len(),
{
    let r2 = rounds.update(i, v);
    if i == rounds.len() - 1 {
        assert(r2.drop_last() =~= rounds.drop_last());
        assert(r2.last() == v);
    } else {
        lemma_volume_of_update(rounds.drop_last(), i, v);
        assert(r2.drop_last() =~= rounds.drop_last().update(i, v));
        assert(r2.last() == rounds.last());
    }
}

/// The entry-operation count is nonnegative.
pub proof fn lemma_entry_total_nonneg(rounds: Seq<Vec<PlayerEntry>>)
    ensures
        entry_total_of(rounds) >= 0,
    decreases rounds.len(),
{
    if rounds.len() > 0 {
        lemma_entry_total_nonneg(rounds.drop_last());
    }
}

/// No single round's ledger holds more entries than were ever made.
pub proof fn lemma_len_le_entry_total(rounds: Seq<Vec<PlayerEntry>>, i: int)
    requires
        0 <= i < rounds.len(),
    ensures
        rounds[i]@.len() <= entry_total_of(rounds),
    decreases rounds.len(),
{
    if i == rounds.len() - 1 {
        lemma_entry_total_nonneg(rounds.drop_last());
    } else {
        lemma_len_le_entry_total(rounds.drop_last(), i);
        assert(rounds.drop_last()[i] == rounds[i]);
    }
}

/// `entry_index` finds the first occurrence: it is in range, it addresses an
/// entry of the player, nothing before it is one, and -1 means the player
/// holds no entry at all.
pub proof fn lemma_entry_index(s: Seq<PlayerEntry>, player: u64)
    ensures
        -1 <= entry_index(s, player) < s.len(),
        entry_index(s, player) >= 0 ==> s[entry_index(s, player)].player == player,
        forall|k: int| 0 <= k < entry_index(s, player) ==> s[k].player != player,
        entry_index(s, player) == -1 ==> forall|k: int|
            0 <= k < s.len() ==> s[k].player != player,
    decreases s.len(),
{
    if s.len() == 0 {
    } else if s[0].player == player {
    } else {
        let t = s.subrange(1, s.len() as int);
        lemma_entry_index(t, player);
        assert forall|k: int| 0 <= k < entry_index(s, player) implies s[k].player
            != player by {
            if k > 0 {
                assert(t[k - 1] == s[k]);
                assert(t[k - 1].player != player);
            }
        };
        if entry_index(s, player) == -1 {
            assert forall|k: int| 0 <= k < s.len() implies s[k].player != player by {
                if k > 0 {
                    assert(t[k - 1] == s[k]);
                    assert(t[k - 1].player != player);
                }
            };
        }
    }
}

/// The first occurrence is pinned: a match with no earlier match is the index.
pub proof fn lemma_entry_index_is_first(s: Seq<PlayerEntry>, player: u64, i: int)
    requires
        0 <= i < s.len(),
        s[i].player == player,
        forall|k: int| 0 <= k < i ==> s[k].player != player,
    ensures
        entry_index(s, player) == i,
{
    lemma_entry_index(s, player);
    let r = entry_index(s, player);
    if r < i {
        assert(s[r].player == player);
    }
    if r > i {
        assert(s[i].player != player);
    }
}

/// Lookup ignores an update that keeps the player of the updated entry.
pub proof fn lemma_entry_index_update_same_player(
    s: Seq<PlayerEntry>,
    j: int,
    e: PlayerEntry,
    player: u64,
)
    requires
        0 <= j < s.len(),
        e.player == s[j].player,
    ensures
        entry_index(s.update(j, e), player) == entry_index(s, player),
{
    let s2 = s.update(j, e);
    lemma_entry_index(s, player);
    lemma_entry_index(s2, player);
    let r = entry_index(s, player);
    if r >= 0 {
        assert(s2[r].player == player);
        assert(forall|k: int| 0 <= k < r ==> s2[k].player != player);
        lemma_entry_index_is_first(s2, player, r);
    } else {
        assert(forall|k: int| 0 <= k < s2.len() ==> s2[k].player != player);
        if entry_index(s2, player) >= 0 {
            assert(s2[entry_index(s2, player)].player == player);
        }
    }
}

/// An appended entry is on the ledger.
pub proof fn lemma_has_entry_after_push(s: Seq<PlayerEntry>, e: PlayerEntry)
    ensures
        has_entry(s.push(e), e.player),
{
    let s2 = s.push(e);
    lemma_entry_index(s2, e.player);
    if entry_index(s2, e.player) == -1 {
        assert(s2[s.len() as int].player == e.player);
    }
}

} // verus!
