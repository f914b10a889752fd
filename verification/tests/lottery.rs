use lottery_pool::errors::LotteryError;
use lottery_pool::lottery::LotteryPool;
use lottery_pool::types::{Request, SettleOutcome, YieldMode};

fn fresh_pool(mode: YieldMode, yield_rate: u32, round_duration: u64, min_deposit: i128) -> LotteryPool {
    let mut pool = LotteryPool::new();
    let r = pool.initialize(1, 2, 3, mode, yield_rate, round_duration, min_deposit, 1000, true);
    assert!(r.is_ok());
    pool
}

#[test]
fn initialize_opens_round_one() {
    let pool = fresh_pool(YieldMode::NoYield, 500, 60, 100);
    assert!(pool.is_initialized());
    let round = pool.get_current_round().unwrap();
    assert_eq!(round.id, 1);
    assert_eq!(round.start_time, 1000);
    assert_eq!(round.end_time, 1060);
    assert_eq!(round.total_deposits, 0);
    assert_eq!(round.total_yield, 0);
    assert_eq!(round.winner, None);
    assert!(round.is_active);
    assert_eq!(round.player_count, 0);
    let stats = pool.get_stats();
    assert_eq!(stats.total_rounds, 0);
    assert_eq!(stats.total_volume, 0);
    assert_eq!(stats.total_players, 0);
    assert_eq!(stats.total_prizes_paid, 0);
}

#[test]
fn initialize_twice_fails() {
    let mut pool = fresh_pool(YieldMode::NoYield, 500, 60, 100);
    let r = pool.initialize(1, 2, 3, YieldMode::NoYield, 500, 60, 100, 1000, true);
    assert_eq!(r, Err(LotteryError::AlreadyInitialized));
}

#[test]
fn initialize_requires_authorization() {
    let mut pool = LotteryPool::new();
    let r = pool.initialize(1, 2, 3, YieldMode::NoYield, 500, 60, 100, 1000, false);
    assert_eq!(r, Err(LotteryError::Unauthorized));
    assert!(!pool.is_initialized());
}

#[test]
fn initialize_rejects_excessive_rate() {
    let mut pool = LotteryPool::new();
    let r = pool.initialize(1, 2, 3, YieldMode::RateTimeMock, 10001, 60, 100, 1000, true);
    assert_eq!(r, Err(LotteryError::InvalidConfig));
}

#[test]
fn initialize_rejects_nonpositive_minimum() {
    let mut pool = LotteryPool::new();
    let r = pool.initialize(1, 2, 3, YieldMode::NoYield, 500, 60, 0, 1000, true);
    assert_eq!(r, Err(LotteryError::InvalidConfig));
}

#[test]
fn initialize_rejects_short_duration() {
    let mut pool = LotteryPool::new();
    let r = pool.initialize(1, 2, 3, YieldMode::NoYield, 500, 59, 100, 1000, true);
    assert_eq!(r, Err(LotteryError::InvalidConfig));
}

#[test]
fn enter_records_entry_and_counters() {
    let mut pool = fresh_pool(YieldMode::NoYield, 500, 60, 100);
    let out = pool.enter_lottery(10, 150, 1010, true).unwrap();
    assert_eq!(out.round_id, 1);
    assert_eq!(out.amount, 150);
    assert_eq!(out.supply, None);
    let entry = pool.get_player_entry(1, 10).unwrap();
    assert_eq!(entry.player, 10);
    assert_eq!(entry.deposit, 150);
    assert_eq!(entry.round_id, 1);
    assert!(!entry.has_claimed);
    let round = pool.get_current_round().unwrap();
    assert_eq!(round.total_deposits, 150);
    assert_eq!(round.player_count, 1);
    let stats = pool.get_stats();
    assert_eq!(stats.total_volume, 150);
    assert_eq!(stats.total_players, 1);
}

#[test]
fn enter_requires_authorization() {
    let mut pool = fresh_pool(YieldMode::NoYield, 500, 60, 100);
    assert_eq!(pool.enter_lottery(10, 150, 1010, false), Err(LotteryError::Unauthorized));
}

#[test]
fn enter_before_initialize_fails() {
    let mut pool = LotteryPool::new();
    assert_eq!(pool.enter_lottery(10, 150, 1010, true), Err(LotteryError::NotInitialized));
}

#[test]
fn enter_below_minimum_fails() {
    let mut pool = fresh_pool(YieldMode::NoYield, 500, 60, 100);
    assert_eq!(pool.enter_lottery(10, 99, 1010, true), Err(LotteryError::BelowMinimum));
}

#[test]
fn enter_after_round_end_fails() {
    let mut pool = fresh_pool(YieldMode::NoYield, 500, 60, 100);
    assert_eq!(pool.enter_lottery(10, 150, 1060, true), Err(LotteryError::RoundEnded));
}

#[test]
fn duplicate_entry_fails_and_changes_nothing() {
    let mut pool = fresh_pool(YieldMode::NoYield, 500, 60, 100);
    pool.enter_lottery(10, 150, 1010, true).unwrap();
    let r = pool.enter_lottery(10, 700, 1020, true);
    assert_eq!(r, Err(LotteryError::DuplicateEntry));
    let entry = pool.get_player_entry(1, 10).unwrap();
    assert_eq!(entry.deposit, 150);
    let round = pool.get_current_round().unwrap();
    assert_eq!(round.total_deposits, 150);
    assert_eq!(round.player_count, 1);
    let stats = pool.get_stats();
    assert_eq!(stats.total_volume, 150);
    assert_eq!(stats.total_players, 1);
}

#[test]
fn deposits_always_sum_to_round_total() {
    let mut pool = fresh_pool(YieldMode::NoYield, 500, 60, 100);
    let deposits: [i128; 3] = [100, 250, 400];
    let players: [u64; 3] = [10, 11, 12];
    let mut sum: i128 = 0;
    for k in 0..3 {
        pool.enter_lottery(players[k], deposits[k], 1010, true).unwrap();
        sum += deposits[k];
        let round = pool.get_current_round().unwrap();
        assert_eq!(round.total_deposits, sum);
    }
    let mut ledger_sum: i128 = 0;
    for k in 0..3 {
        ledger_sum += pool.get_player_entry(1, players[k]).unwrap().deposit;
    }
    assert_eq!(ledger_sum, pool.get_round(1).total_deposits);
}

#[test]
fn get_players_keeps_entry_order() {
    let mut pool = fresh_pool(YieldMode::NoYield, 500, 60, 100);
    pool.enter_lottery(30, 100, 1010, true).unwrap();
    pool.enter_lottery(20, 100, 1011, true).unwrap();
    pool.enter_lottery(40, 100, 1012, true).unwrap();
    assert_eq!(pool.get_players(1), vec![30, 20, 40]);
    assert_eq!(pool.get_players(7), Vec::<u64>::new());
}

#[test]
fn get_player_entry_missing_cases() {
    let mut pool = fresh_pool(YieldMode::NoYield, 500, 60, 100);
    pool.enter_lottery(10, 150, 1010, true).unwrap();
    assert_eq!(pool.get_player_entry(1, 11), None);
    assert_eq!(pool.get_player_entry(2, 10), None);
}

#[test]
fn settle_before_end_fails() {
    let mut pool = fresh_pool(YieldMode::NoYield, 500, 60, 100);
    pool.enter_lottery(10, 150, 1010, true).unwrap();
    assert_eq!(pool.pick_winner(1059, 0, 0), Err(LotteryError::RoundNotEnded));
}

#[test]
fn settle_without_players_fails() {
    let mut pool = fresh_pool(YieldMode::NoYield, 500, 60, 100);
    assert_eq!(pool.pick_winner(1060, 0, 0), Err(LotteryError::NoPlayers));
}

#[test]
fn settle_before_initialize_fails() {
    let mut pool = LotteryPool::new();
    assert_eq!(pool.pick_winner(1060, 0, 0), Err(LotteryError::NotInitialized));
}

#[test]
fn three_players_select_winner_by_formula() {
    // (1121 XOR 3) mod 3 == 1122 mod 3 == 0: the first entrant wins.
    let mut pool = fresh_pool(YieldMode::NoYield, 500, 60, 100);
    pool.enter_lottery(10, 100, 1010, true).unwrap();
    pool.enter_lottery(11, 200, 1011, true).unwrap();
    pool.enter_lottery(12, 300, 1012, true).unwrap();
    let out = pool.pick_winner(1121, 3, 0).unwrap();
    match out {
        SettleOutcome::Winner { round_id, winner, prize, withdraw } => {
            assert_eq!(round_id, 1);
            assert_eq!(winner, 10);
            assert_eq!(prize, 100);
            assert_eq!(withdraw, None);
        }
        _ => panic!("expected a winner outcome"),
    }
    let settled = pool.get_round(1);
    assert_eq!(settled.winner, Some(10));
    assert!(!settled.is_active);
    let round2 = pool.get_current_round().unwrap();
    assert_eq!(round2.id, 2);
    assert_eq!(round2.total_deposits, 0);
    assert!(round2.is_active);
}

#[test]
fn winner_formula_is_deterministic_for_each_seed() {
    // With three entrants, (timestamp XOR sequence) mod 3 picks positions
    // 0, 1 and 2 for the pairs below; re-running a pair repeats its winner.
    let cases: [(u64, u32, u64); 3] = [(1125, 0, 10), (1125, 3, 11), (1124, 0, 12)];
    for (ts, seq, expect) in cases {
        for _ in 0..2 {
            let mut pool = fresh_pool(YieldMode::NoYield, 500, 60, 100);
            pool.enter_lottery(10, 100, 1010, true).unwrap();
            pool.enter_lottery(11, 100, 1011, true).unwrap();
            pool.enter_lottery(12, 100, 1012, true).unwrap();
            match pool.pick_winner(ts, seq, 0).unwrap() {
                SettleOutcome::Winner { winner, .. } => assert_eq!(winner, expect),
                _ => panic!("expected a winner outcome"),
            }
            assert_eq!((ts ^ seq as u64) % 3, (expect - 10) as u64);
        }
    }
}

#[test]
fn losers_claim_refund_exactly_once() {
    let mut pool = fresh_pool(YieldMode::NoYield, 500, 60, 100);
    pool.enter_lottery(10, 100, 1010, true).unwrap();
    pool.enter_lottery(11, 200, 1011, true).unwrap();
    pool.enter_lottery(12, 300, 1012, true).unwrap();
    pool.pick_winner(1121, 3, 0).unwrap(); // (1121 ^ 3) % 3 == 0: player 10 wins
    assert_eq!(pool.claim_refund(11, 1, true), Ok(200));
    assert_eq!(pool.claim_refund(12, 1, true), Ok(300));
    assert_eq!(pool.claim_refund(11, 1, true), Err(LotteryError::AlreadyClaimed));
    assert_eq!(pool.claim_refund(12, 1, true), Err(LotteryError::AlreadyClaimed));
    assert!(pool.get_player_entry(1, 11).unwrap().has_claimed);
}

#[test]
fn winner_cannot_claim_refund() {
    let mut pool = fresh_pool(YieldMode::NoYield, 500, 60, 100);
    pool.enter_lottery(10, 100, 1010, true).unwrap();
    pool.enter_lottery(11, 200, 1011, true).unwrap();
    pool.enter_lottery(12, 300, 1012, true).unwrap();
    pool.pick_winner(1121, 3, 0).unwrap(); // (1121 ^ 3) % 3 == 0: player 10 wins
    assert_eq!(pool.claim_refund(10, 1, true), Err(LotteryError::NotEligibleForRefund));
    assert!(!pool.get_player_entry(1, 10).unwrap().has_claimed);
}

#[test]
fn claim_error_cases() {
    let mut pool = fresh_pool(YieldMode::NoYield, 500, 60, 100);
    pool.enter_lottery(10, 100, 1010, true).unwrap();
    assert_eq!(pool.claim_refund(10, 1, false), Err(LotteryError::Unauthorized));
    assert_eq!(pool.claim_refund(10, 99, true), Err(LotteryError::RoundNotFound));
    assert_eq!(pool.claim_refund(10, 1, true), Err(LotteryError::RoundNotEnded));
    pool.enter_lottery(11, 100, 1011, true).unwrap();
    pool.enter_lottery(12, 100, 1012, true).unwrap();
    pool.pick_winner(1121, 3, 0).unwrap(); // (1121 ^ 3) % 3 == 0: player 10 wins
    assert_eq!(pool.claim_refund(77, 1, true), Err(LotteryError::NotEligibleForRefund));
}

#[test]
fn two_players_roll_over_into_jackpot() {
    // A full year at 100 percent: the mock yield equals the deposits.
    let mut pool = fresh_pool(YieldMode::RateTimeMock, 10000, 31_536_000, 100);
    pool.enter_lottery(10, 100, 2000, true).unwrap();
    pool.enter_lottery(11, 200, 2001, true).unwrap();
    let out = pool.pick_winner(1000 + 31_536_000, 9, 0).unwrap();
    match out {
        SettleOutcome::Jackpot { completed_round, new_round, rolled, refunds, withdraw } => {
            assert_eq!(completed_round, 1);
            assert_eq!(new_round, 2);
            assert_eq!(rolled, 300);
            assert_eq!(refunds.len(), 2);
            assert_eq!(refunds[0].player, 10);
            assert_eq!(refunds[0].amount, 100);
            assert_eq!(refunds[1].player, 11);
            assert_eq!(refunds[1].amount, 200);
            assert_eq!(withdraw, None);
        }
        _ => panic!("expected a jackpot outcome"),
    }
    let settled = pool.get_round(1);
    assert_eq!(settled.winner, None);
    assert!(!settled.is_active);
    assert_eq!(settled.total_yield, 300);
    let round2 = pool.get_current_round().unwrap();
    assert_eq!(round2.id, 2);
    assert_eq!(round2.total_deposits, 300);
    assert_eq!(round2.player_count, 0);
    // No winner was ever selected, so refunds stay unreachable here.
    assert_eq!(pool.claim_refund(10, 1, true), Err(LotteryError::WinnerNotSelected));
}

#[test]
fn rollover_threshold_is_three_players() {
    let mut two = fresh_pool(YieldMode::NoYield, 500, 60, 100);
    two.enter_lottery(10, 100, 1010, true).unwrap();
    two.enter_lottery(11, 100, 1011, true).unwrap();
    assert!(matches!(two.pick_winner(1060, 0, 0).unwrap(), SettleOutcome::Jackpot { .. }));

    let mut three = fresh_pool(YieldMode::NoYield, 500, 60, 100);
    three.enter_lottery(10, 100, 1010, true).unwrap();
    three.enter_lottery(11, 100, 1011, true).unwrap();
    three.enter_lottery(12, 100, 1012, true).unwrap();
    assert!(matches!(three.pick_winner(1060, 0, 0).unwrap(), SettleOutcome::Winner { .. }));
}

#[test]
fn round_ids_increase_by_one_on_every_settlement() {
    let mut pool = fresh_pool(YieldMode::NoYield, 500, 60, 100);
    // Round 1 rolls over (one player), round 2 settles with a winner.
    pool.enter_lottery(10, 100, 1010, true).unwrap();
    pool.pick_winner(1060, 0, 0).unwrap();
    assert_eq!(pool.get_current_round().unwrap().id, 2);
    pool.enter_lottery(10, 100, 1070, true).unwrap();
    pool.enter_lottery(11, 100, 1071, true).unwrap();
    pool.enter_lottery(12, 100, 1072, true).unwrap();
    pool.pick_winner(1200, 0, 0).unwrap();
    assert_eq!(pool.get_current_round().unwrap().id, 3);
    assert_eq!(pool.get_round(1).id, 1);
    assert_eq!(pool.get_round(2).id, 2);
    assert_eq!(pool.get_round(3).id, 3);
    let stats = pool.get_stats();
    assert_eq!(stats.total_rounds, 2);
}

#[test]
fn mock_yield_full_year_equals_deposits() {
    let mut pool = fresh_pool(YieldMode::RateTimeMock, 10000, 31_536_000, 100);
    pool.enter_lottery(10, 777, 2000, true).unwrap();
    match pool.pick_winner(1000 + 31_536_000, 0, 0).unwrap() {
        SettleOutcome::Jackpot { rolled, .. } => assert_eq!(rolled, 777),
        _ => panic!("expected a jackpot outcome"),
    }
}

#[test]
fn mock_yield_rounds_down_to_zero() {
    // 600 * 500 * 60 / (31,536,000 * 10,000) is far below one unit.
    let mut pool = fresh_pool(YieldMode::RateTimeMock, 500, 60, 100);
    pool.enter_lottery(10, 600, 1010, true).unwrap();
    match pool.pick_winner(1060, 0, 0).unwrap() {
        SettleOutcome::Jackpot { rolled, .. } => assert_eq!(rolled, 0),
        _ => panic!("expected a jackpot outcome"),
    }
}

#[test]
fn external_pool_entry_reports_supply_request() {
    let mut pool = fresh_pool(YieldMode::ExternalPoolIntegration, 0, 60, 100);
    let out = pool.enter_lottery(10, 5000, 1010, true).unwrap();
    assert_eq!(out.supply, Some(Request { request_type: 2, address: 2, amount: 5000 }));
}

#[test]
fn external_pool_jackpot_pays_proportional_refunds() {
    let mut pool = fresh_pool(YieldMode::ExternalPoolIntegration, 0, 60, 100);
    pool.enter_lottery(10, 5000, 1010, true).unwrap();
    pool.enter_lottery(11, 5000, 1011, true).unwrap();
    // House balance 100: yield is 100 / 20 == 5. The withdrawal is
    // 10,000 * 9999 / 10,000 == 9999, so each refund is
    // 5000 * 9999 / 10,000 == 4999, absorbing the fee pro rata.
    match pool.pick_winner(1060, 0, 100).unwrap() {
        SettleOutcome::Jackpot { rolled, refunds, withdraw, .. } => {
            assert_eq!(rolled, 5);
            assert_eq!(refunds[0].amount, 4999);
            assert_eq!(refunds[1].amount, 4999);
            assert_eq!(withdraw, Some(Request { request_type: 3, address: 2, amount: 9999 }));
        }
        _ => panic!("expected a jackpot outcome"),
    }
    assert_eq!(pool.get_current_round().unwrap().total_deposits, 5);
}

#[test]
fn external_pool_winner_gets_deposit_plus_house_yield() {
    let mut pool = fresh_pool(YieldMode::ExternalPoolIntegration, 0, 60, 100);
    pool.enter_lottery(10, 5000, 1010, true).unwrap();
    pool.enter_lottery(11, 5000, 1011, true).unwrap();
    pool.enter_lottery(12, 5000, 1012, true).unwrap();
    // (1062 XOR 0) mod 3 == 0: the first entrant wins. Yield is 1000 / 20.
    match pool.pick_winner(1062, 0, 1000).unwrap() {
        SettleOutcome::Winner { winner, prize, withdraw, .. } => {
            assert_eq!(winner, 10);
            assert_eq!(prize, 5000 + 50);
            assert_eq!(
                withdraw,
                Some(Request { request_type: 3, address: 2, amount: 15000 * 9999 / 10000 })
            );
        }
        _ => panic!("expected a winner outcome"),
    }
    assert_eq!(pool.get_round(1).total_yield, 50);
}

#[test]
fn stats_estimate_prizes_as_one_percent_of_volume() {
    let mut pool = fresh_pool(YieldMode::NoYield, 500, 60, 100);
    pool.enter_lottery(10, 400, 1010, true).unwrap();
    pool.enter_lottery(11, 200, 1011, true).unwrap();
    let stats = pool.get_stats();
    assert_eq!(stats.total_volume, 600);
    assert_eq!(stats.total_players, 2);
    assert_eq!(stats.total_prizes_paid, 6);
}

#[test]
fn get_current_round_before_initialize_fails() {
    let pool = LotteryPool::new();
    assert_eq!(pool.get_current_round(), Err(LotteryError::NotInitialized));
}
