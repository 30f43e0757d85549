use lockup_contract::error::{ContractError, StdError};
use lockup_contract::math::{Decimal, Timestamp};
use lockup_contract::rewards::{
    calculate_apr_for_year, calculate_period_rewards, calculate_progressive_rewards,
    calculate_rewards, calculate_simple_rewards, decimal_to_uint128, get_apr_for_amount,
    get_tier_for_amount, get_year_end_seconds, get_year_index, seconds_to_decimal, SECONDS_PER_YEAR,
};
use lockup_contract::state::{Coin, Lockup, TierConfig};

const D: u128 = 1_000_000_000_000_000_000;
const NANOS: u64 = 1_000_000_000;

fn pct(x: u64) -> Decimal {
    Decimal { atomics: cosmwasm_std::Decimal::percent(x).atomics().u128() }
}

fn tiers() -> TierConfig {
    TierConfig {
        tier_1_min: 10_000_000_000,
        tier_2_min: 50_000_000_000,
        tier_3_min: 100_000_000_000,
        tier_4_min: 500_000_000_000,
        tier_4_limit: 1_000_000_000_000,
        tier_1_apr: pct(2),
        tier_2_apr: Decimal { atomics: 35_000_000_000_000_000 },
        tier_3_apr: pct(5),
        tier_4_apr: pct(8),
        percentage_increase_per_year: pct(1),
        max_percentage_increase: pct(10),
    }
}

fn lockup(amount: u128, apr: Decimal, start_secs: u64, last_claim_secs: u64) -> Lockup {
    Lockup {
        owner: "owner".to_string(),
        principal_amount: Coin { denom: "uc4e".to_string(), amount },
        unlock_time: Timestamp { nanos: (start_secs + SECONDS_PER_YEAR) * NANOS },
        annual_percentage_rate: apr,
        last_claim_time: Timestamp { nanos: last_claim_secs * NANOS },
        start_time: Timestamp { nanos: start_secs * NANOS },
    }
}

#[test]
fn tiers_follow_the_minimums() {
    let t = tiers();
    assert_eq!(get_tier_for_amount(9_999_999_999, &t), 0);
    assert_eq!(get_tier_for_amount(10_000_000_000, &t), 1);
    assert_eq!(get_tier_for_amount(50_000_000_000, &t), 2);
    assert_eq!(get_tier_for_amount(499_999_999_999, &t), 3);
    assert_eq!(get_tier_for_amount(500_000_000_000, &t), 4);
    assert_eq!(get_apr_for_amount(9_999_999_999, &t), Decimal { atomics: 0 });
    assert_eq!(get_apr_for_amount(60_000_000_000, &t), Decimal { atomics: 35 * D / 1000 });
    assert_eq!(get_apr_for_amount(2_000_000_000_000, &t), pct(8));
}

#[test]
fn tier_is_monotone_on_samples() {
    let t = tiers();
    let samples = [0u128, 10_000_000_000, 49_999_999_999, 50_000_000_000, 100_000_000_000, 700_000_000_000];
    for a in samples {
        for b in samples {
            if a <= b {
                assert!(get_tier_for_amount(a, &t) <= get_tier_for_amount(b, &t));
            }
        }
    }
}

#[test]
fn years_and_year_ends() {
    assert_eq!(get_year_index(0), 0);
    assert_eq!(get_year_index(SECONDS_PER_YEAR - 1), 0);
    assert_eq!(get_year_index(SECONDS_PER_YEAR), 1);
    assert_eq!(get_year_index(10 * SECONDS_PER_YEAR + 5), 10);
    assert_eq!(get_year_end_seconds(100, 0), 100 + SECONDS_PER_YEAR);
    assert_eq!(get_year_end_seconds(100, 2), 100 + 3 * SECONDS_PER_YEAR);
}

#[test]
fn apr_grows_by_the_yearly_increase_up_to_the_cap() {
    let t = tiers();
    assert_eq!(calculate_apr_for_year(pct(5), &t, 0), Some(pct(5)));
    assert_eq!(calculate_apr_for_year(pct(5), &t, 1), Some(pct(6)));
    assert_eq!(calculate_apr_for_year(pct(5), &t, 9), Some(pct(14)));
    assert_eq!(calculate_apr_for_year(pct(5), &t, 10), Some(pct(15)));
    assert_eq!(calculate_apr_for_year(pct(5), &t, 40), Some(pct(15)));
}

#[test]
fn apr_overflow_aborts() {
    let mut t = tiers();
    t.percentage_increase_per_year = Decimal { atomics: u128::MAX };
    t.max_percentage_increase = Decimal { atomics: u128::MAX };
    assert_eq!(calculate_apr_for_year(pct(5), &t, 2), None);
    assert_eq!(calculate_apr_for_year(pct(5), &t, 0), Some(pct(5)));
}

#[test]
fn seconds_become_whole_decimals() {
    assert_eq!(seconds_to_decimal(3), Decimal { atomics: 3 * D });
    assert_eq!(decimal_to_uint128(Decimal { atomics: 3 * D + D / 2 }), 3);
    assert_eq!(decimal_to_uint128(Decimal { atomics: D - 1 }), 0);
}

#[test]
fn period_rewards_are_principal_times_apr_times_share_of_year() {
    // 1000 units at 8% for half a year: 40 units, exactly
    let p = seconds_to_decimal(1000);
    let r = calculate_period_rewards(p, pct(8), SECONDS_PER_YEAR / 2).unwrap();
    assert_eq!(r, Decimal { atomics: 40 * D });
    // one second of a year is rounded down to the atomic unit
    let r = calculate_period_rewards(Decimal { atomics: D }, Decimal { atomics: D }, 1).unwrap();
    assert_eq!(r, Decimal { atomics: D / 31_536_000 });
    // a product beyond 128 bits aborts
    assert_eq!(
        calculate_period_rewards(Decimal { atomics: u128::MAX }, Decimal { atomics: 2 * D }, 1),
        None
    );
}

#[test]
fn simple_rewards_use_the_given_apr() {
    let l = lockup(500_000_000_000, pct(8), 1_000, 1_000);
    assert_eq!(calculate_simple_rewards(&l, pct(8), SECONDS_PER_YEAR / 2), Some(20_000_000_000));
    assert_eq!(calculate_simple_rewards(&l, pct(9), SECONDS_PER_YEAR / 2), Some(22_500_000_000));
    assert_eq!(calculate_simple_rewards(&l, pct(8), 0), Some(0));
    // a principal whose decimal does not fit aborts
    let huge = lockup(u128::MAX / 1000, pct(8), 1_000, 1_000);
    assert_eq!(calculate_simple_rewards(&huge, pct(8), 1), None);
}

#[test]
fn progressive_rewards_raise_the_apr_each_year() {
    let t = tiers();
    let start = 1_000u64;
    let l = lockup(100_000_000_000, pct(5), start, start);
    // two full years: 5% then 6%
    assert_eq!(
        calculate_progressive_rewards(&l, start, start + 2 * SECONDS_PER_YEAR, &t),
        Some(11_000_000_000)
    );
    // half of year two (6%) and half of year three (7%)
    let from = start + SECONDS_PER_YEAR + SECONDS_PER_YEAR / 2;
    assert_eq!(
        calculate_progressive_rewards(&l, from, from + SECONDS_PER_YEAR, &t),
        Some(3_000_000_000 + 3_500_000_000)
    );
    // a last payout before the start aborts
    assert_eq!(calculate_progressive_rewards(&l, start - 1, start + 10, &t), None);
}

#[test]
fn rewards_need_an_apr_and_elapsed_time() {
    let t = tiers();
    let denom = "uc4e".to_string();
    let l = lockup(100_000_000_000, Decimal { atomics: 0 }, 1_000, 1_000);
    let now = Timestamp { nanos: (1_000 + SECONDS_PER_YEAR) * NANOS };
    assert_eq!(calculate_rewards(&l, now, &denom, &t).unwrap().amount, 0);
    let l = lockup(100_000_000_000, pct(5), 1_000, 5_000);
    let now = Timestamp { nanos: 5_000 * NANOS };
    assert_eq!(calculate_rewards(&l, now, &denom, &t).unwrap().amount, 0);
}

#[test]
fn rewards_within_a_later_year_use_that_years_apr() {
    // between two payouts inside year two the rewards earn the year-two APR (5% + 1%)
    let t = tiers();
    let denom = "uc4e".to_string();
    let start = 1_000u64;
    let l = lockup(100_000_000_000, pct(5), start, start + SECONDS_PER_YEAR);
    let now = Timestamp { nanos: (start + SECONDS_PER_YEAR + SECONDS_PER_YEAR / 2) * NANOS };
    let c = calculate_rewards(&l, now, &denom, &t).unwrap();
    assert_eq!(c.amount, 3_000_000_000);
    assert_eq!(c.denom, denom);
}

#[test]
fn claiming_in_between_does_not_change_the_total() {
    let t = tiers();
    let denom = "uc4e".to_string();
    let start = 1_000u64;
    let l = lockup(100_000_000_000, pct(5), start, start);
    let b = Timestamp { nanos: (start + SECONDS_PER_YEAR) * NANOS };
    let c = Timestamp { nanos: (start + SECONDS_PER_YEAR + SECONDS_PER_YEAR / 2) * NANOS };
    let first = calculate_rewards(&l, b, &denom, &t).unwrap().amount;
    let mut lb = l.clone();
    lb.last_claim_time = b;
    let second = calculate_rewards(&lb, c, &denom, &t).unwrap().amount;
    let whole = calculate_rewards(&l, c, &denom, &t).unwrap().amount;
    assert_eq!(first, 5_000_000_000);
    assert_eq!(second, 3_000_000_000);
    assert_eq!(whole, 8_000_000_000);
    assert!(first + second <= whole && whole <= first + second + 2);
}

#[test]
fn rewards_grow_with_time() {
    let t = tiers();
    let denom = "uc4e".to_string();
    let start = 1_571_797_419u64;
    let l = lockup(123_456_789_012, pct(5), start, start);
    let mut previous = 0u128;
    for step in 0..40u64 {
        let now = Timestamp { nanos: (start + step * 7_000_000) * NANOS + 879_305_533 };
        let r = calculate_rewards(&l, now, &denom, &t).unwrap().amount;
        assert!(r >= previous);
        previous = r;
    }
}

#[test]
fn first_year_rewards_are_principal_times_apr() {
    let t = tiers();
    let l = lockup(123_456_789, pct(8), 1_000, 1_000);
    assert_eq!(
        lockup_contract::contract::calculate_yearly_rewards_for_lockup(&l, &t),
        Some(123_456_789 * 8 / 100)
    );
}

#[test]
fn payout_leaves_nothing_pending() {
    let t = tiers();
    let denom = "uc4e".to_string();
    let start = 1_000u64;
    let mut l = lockup(100_000_000_000, pct(5), start, start);
    let now = Timestamp { nanos: (start + 3 * SECONDS_PER_YEAR) * NANOS };
    assert!(calculate_rewards(&l, now, &denom, &t).unwrap().amount > 0);
    l.last_claim_time = now;
    assert_eq!(calculate_rewards(&l, now, &denom, &t).unwrap().amount, 0);
}

#[test]
fn text_of_decimals_and_timestamps() {
    assert_eq!(pct(8).to_text(), "0.08");
    assert_eq!(Decimal { atomics: 35 * D / 1000 }.to_text(), "0.035");
    assert_eq!(Decimal { atomics: 12 * D }.to_text(), "12");
    assert_eq!(Decimal { atomics: 3 * D / 2 }.to_text(), "1.5");
    assert_eq!(Decimal { atomics: 1 }.to_text(), "0.000000000000000001");
    assert_eq!(Timestamp { nanos: 1_571_797_419_879_305_533 }.to_text(), "1571797419.879305533");
    assert_eq!(Timestamp { nanos: 5 * NANOS + 7 }.to_text(), "5.000000007");
}

#[test]
fn error_texts() {
    assert_eq!(ContractError::Unauthorized {}.message(), "Unauthorized");
    assert_eq!(ContractError::ZeroAmount {}.message(), "Amount cannot be zero");
    assert_eq!(ContractError::ZeroRewards {}.message(), "No rewards to claim at this time");
    assert_eq!(ContractError::PastLockupPeriod {}.message(), "Past lockup period");
    assert_eq!(ContractError::NoFundsForDeposit {}.message(), "No funds for deposit");
    assert_eq!(ContractError::InvalidPrincipalAmount {}.message(), "Invalid principal amount");
    assert_eq!(
        ContractError::StillLocked { unlock_time: Timestamp { nanos: 12 * NANOS + 5 } }.message(),
        "Funds are still locked. Unlock time: 12.000000005"
    );
    assert_eq!(
        ContractError::InvalidFunds { expected_denom: "uc4e".to_string() }.message(),
        "Must send funds with the expected denomination: uc4e"
    );
    assert_eq!(
        ContractError::CannotClaimRewards {
            claim_amount: 150,
            claim_denom: "uc4e".to_string(),
            available_amount: 20,
            available_denom: "uc4e".to_string(),
        }
        .message(),
        "Cannot claim rewards: to claim 150 uc4e, available 20 uc4e, please contact administrators."
    );
    assert_eq!(
        ContractError::InsufficientRewardFunds {
            available_amount: 1000,
            available_denom: "uc4e".to_string(),
            required_amount: 7500,
            required_denom: "uc4e".to_string(),
        }
        .message(),
        "Insufficient reward funds: available 1000 uc4e, required 7500 uc4e"
    );
    assert_eq!(
        ContractError::Std(StdError::NotFound { kind: "thing".to_string() }).message(),
        "thing not found"
    );
}

#[test]
fn larger_deposits_and_rates_earn_more() {
    let t = tiers();
    let denom = "uc4e".to_string();
    let start = 1_000u64;
    let now = Timestamp { nanos: (start + SECONDS_PER_YEAR + SECONDS_PER_YEAR / 3) * NANOS };
    let small = lockup(100_000_000_000, pct(5), start, start);
    let larger = lockup(150_000_000_000, pct(5), start, start);
    let richer = lockup(150_000_000_000, pct(8), start, start);
    let r_small = calculate_rewards(&small, now, &denom, &t).unwrap().amount;
    let r_larger = calculate_rewards(&larger, now, &denom, &t).unwrap().amount;
    let r_richer = calculate_rewards(&richer, now, &denom, &t).unwrap().amount;
    assert!(r_small < r_larger && r_larger < r_richer);
}

#[test]
fn claiming_in_between_loses_at_most_the_allowance() {
    // 3 * 10^20 units at 100%: one atomic unit of the share of a year is 300 units
    let t = tiers();
    let denom = "uc4e".to_string();
    let start = 1_000u64;
    let l = lockup(300_000_000_000_000_000_000, Decimal { atomics: D }, start, start);
    let b = Timestamp { nanos: (start + 1) * NANOS };
    let c = Timestamp { nanos: (start + 2) * NANOS };
    let first = calculate_rewards(&l, b, &denom, &t).unwrap().amount;
    let mut lb = l.clone();
    lb.last_claim_time = b;
    let second = calculate_rewards(&lb, c, &denom, &t).unwrap().amount;
    let whole = calculate_rewards(&l, c, &denom, &t).unwrap().amount;
    assert_eq!(first, 9_512_937_594_900);
    assert_eq!(second, 9_512_937_594_900);
    assert_eq!(whole, 19_025_875_190_100);
    // allowance: 2 + (3 * 10^20 * (10^18 + 10^17) / 10^18 + 2) / 10^18 = 332
    // principal * (base + maximum increase) / 10^18, computed without overflow
    let m: u128 = 300_000_000_000_000_000_000 / D * (D + D / 10);
    let allowance = 2 + (m + 2) / D;
    assert_eq!(allowance, 332);
    assert!(first + second <= whole && whole <= first + second + allowance);
    assert!(whole > first + second + 2);
}
