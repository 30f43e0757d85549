//! Tiers, APRs and the accrual of rewards over the years of a lockup.

use vstd::prelude::*;

use crate::math::{
    decimal_checked_add, decimal_checked_div, decimal_checked_mul, decimal_from_integer,
    spec_decimal_add, spec_decimal_div, spec_decimal_floor, spec_decimal_from_integer, spec_decimal_mul,
    Decimal, Timestamp, DECIMAL_FRACTIONAL, NANOS_PER_SECOND,
};
use crate::state::{Coin, Lockup, TierConfig};

verus! {

/// Seconds in one lockup year.
pub const SECONDS_PER_YEAR: u64 = 31_536_000u64;

// ---------------------------------------------------------------------------
// Tiers
// ---------------------------------------------------------------------------

/// The tier of a deposit: the highest tier whose minimum it reaches, or 0.
pub open spec fn spec_tier_for_amount(amount: u128, t: TierConfig) -> u8 {
    if amount >= t.tier_4_min {
        4
    } else if amount >= t.tier_3_min {
        3
    } else if amount >= t.tier_2_min {
        2
    } else if amount >= t.tier_1_min {
        1
    } else {
        0
    }
}

/// The base APR of a tier (zero for tier 0).
pub open spec fn spec_apr_for_tier(tier: u8, t: TierConfig) -> Decimal {
    if tier == 4 {
        t.tier_4_apr
    } else if tier == 3 {
        t.tier_3_apr
    } else if tier == 2 {
        t.tier_2_apr
    } else if tier == 1 {
        t.tier_1_apr
    } else {
        Decimal { atomics: 0 }
    }
}

/// The base APR of a deposit: that of its tier.
pub open spec fn spec_apr_for_amount(amount: u128, t: TierConfig) -> Decimal {
    spec_apr_for_tier(spec_tier_for_amount(amount, t), t)
}

/// The tier of a deposit of `amount`.
pub fn get_tier_for_amount(amount: u128, tier_config: &TierConfig) -> (tier: u8)
    ensures
        tier == spec_tier_for_amount(amount, *tier_config),
{
    if amount >= tier_config.tier_4_min {
        4
    } else if amount >= tier_config.tier_3_min {
        3
    } else if amount >= tier_config.tier_2_min {
        2
    } else if amount >= tier_config.tier_1_min {
        1
    } else {
        0
    }
}

/// The base APR of a deposit of `amount`.
pub fn get_apr_for_amount(amount: u128, tier_config: &TierConfig) -> (apr: Decimal)
    ensures
        apr == spec_apr_for_amount(amount, *tier_config),
{
    match get_tier_for_amount(amount, tier_config) {
        4 => tier_config.tier_4_apr,
        3 => tier_config.tier_3_apr,
        2 => tier_config.tier_2_apr,
        1 => tier_config.tier_1_apr,
        _ => Decimal::zero(),
    }
}

// ---------------------------------------------------------------------------
// Years
// ---------------------------------------------------------------------------

/// The lockup year (counted from 0) that `time_elapsed` seconds after the
/// start fall into.
pub fn get_year_index(time_elapsed: u64) -> (year: u64)
    ensures
        year == time_elapsed / SECONDS_PER_YEAR,
{
    time_elapsed / SECONDS_PER_YEAR
}

/// The second at which lockup year `year_index` of a lockup started at
/// `start_seconds` ends.
pub fn get_year_end_seconds(start_seconds: u64, year_index: u64) -> (end: u64)
    requires
        start_seconds + (year_index + 1) * SECONDS_PER_YEAR <= u64::MAX,
    ensures
        end == start_seconds + (year_index + 1) * SECONDS_PER_YEAR,
{
    start_seconds + ((year_index + 1) * SECONDS_PER_YEAR)
}

// ---------------------------------------------------------------------------
// APR over the years
// ---------------------------------------------------------------------------

/// The APR in lockup year `year`: the base APR in the first year, and after
/// it the base APR plus `year` times the yearly increase, the increase capped
/// at the maximum; `None` when the arithmetic overflows.
pub open spec fn spec_apr_for_year(base: Decimal, t: TierConfig, year: int) -> Option<Decimal> {
    if year == 0 {
        Some(base)
    } else {
        let additional = year * t.percentage_increase_per_year.atomics;
        if additional > u128::MAX {
            None
        } else {
            let capped = if additional <= t.max_percentage_increase.atomics {
                additional
            } else {
                t.max_percentage_increase.atomics as int
            };
            if base.atomics + capped > u128::MAX {
                None
            } else {
                Some(Decimal { atomics: (base.atomics + capped) as u128 })
            }
        }
    }
}

proof fn lemma_scale_cancels(k: int, inc: int)
    requires
        k >= 0,
        inc >= 0,
    ensures
        (k * DECIMAL_FRACTIONAL) * inc / (DECIMAL_FRACTIONAL as int) == k * inc,
{
    assert((k * DECIMAL_FRACTIONAL) * inc == (k * inc) * DECIMAL_FRACTIONAL) by (nonlinear_arith);
    vstd::arithmetic::div_mod::lemma_div_by_multiple(k * inc, DECIMAL_FRACTIONAL as int);
}

/// The decimal of a number of seconds (or of any 64-bit count).
pub fn seconds_to_decimal(seconds: u64) -> (d: Decimal)
    ensures
        d.atomics == seconds * DECIMAL_FRACTIONAL,
        spec_decimal_from_integer(seconds as int) == Some(d),
{
    match decimal_from_integer(seconds as u128) {
        Some(d) => d,
        None => {
            assert(false);
            Decimal::zero()
        },
    }
}

/// The effective APR of lockup year `year_index`.
pub fn calculate_apr_for_year(base_apr: Decimal, tier_config: &TierConfig, year_index: u64) -> (apr:
    Option<Decimal>)
    ensures
        apr == spec_apr_for_year(base_apr, *tier_config, year_index as int),
{
    if year_index == 0 {
        Some(base_apr)
    } else {
        let years_past_first = seconds_to_decimal(year_index);
        proof {
            lemma_scale_cancels(year_index as int, tier_config.percentage_increase_per_year.atomics as int);
        }
        let additional = match decimal_checked_mul(years_past_first, tier_config.percentage_increase_per_year) {
            Some(d) => d,
            None => return None,
        };
        let capped = additional.min(tier_config.max_percentage_increase);
        decimal_checked_add(base_apr, capped)
    }
}

// ---------------------------------------------------------------------------
// Rewards of one period
// ---------------------------------------------------------------------------

/// The share of a year that `duration` seconds make, as a decimal rounded
/// down: `duration * 10^18 / SECONDS_PER_YEAR` atomic units.
pub open spec fn spec_year_fraction(duration: int) -> Decimal {
    Decimal { atomics: (duration * DECIMAL_FRACTIONAL / (SECONDS_PER_YEAR as int)) as u128 }
}

/// The rewards of `principal` at `apr` over `duration` seconds: the principal
/// times the APR, then times the share of a year, each product rounded down;
/// `None` when a product overflows.
pub open spec fn spec_period_rewards(principal: Decimal, apr: Decimal, duration: int) -> Option<Decimal> {
    match spec_decimal_mul(principal, apr) {
        Some(per_year) => spec_decimal_mul(per_year, spec_year_fraction(duration)),
        None => None,
    }
}

proof fn lemma_year_fraction(duration: u64)
    ensures
        spec_decimal_from_integer(duration as int) == Some(
            Decimal { atomics: (duration * DECIMAL_FRACTIONAL) as u128 },
        ),
        spec_decimal_from_integer(SECONDS_PER_YEAR as int) == Some(
            Decimal { atomics: (SECONDS_PER_YEAR * DECIMAL_FRACTIONAL) as u128 },
        ),
        spec_decimal_div(
            Decimal { atomics: (duration * DECIMAL_FRACTIONAL) as u128 },
            Decimal { atomics: (SECONDS_PER_YEAR * DECIMAL_FRACTIONAL) as u128 },
        ) == Some(spec_year_fraction(duration as int)),
{
    let a = duration * DECIMAL_FRACTIONAL;
    let b = SECONDS_PER_YEAR * DECIMAL_FRACTIONAL;
    assert(a * DECIMAL_FRACTIONAL / b == a / (SECONDS_PER_YEAR as int)) by {
        assert(a * DECIMAL_FRACTIONAL == a * DECIMAL_FRACTIONAL);
        vstd::arithmetic::div_mod::lemma_div_denominator(a * DECIMAL_FRACTIONAL, DECIMAL_FRACTIONAL as int, SECONDS_PER_YEAR as int);
        vstd::arithmetic::div_mod::lemma_div_by_multiple(a, DECIMAL_FRACTIONAL as int);
        assert(DECIMAL_FRACTIONAL * SECONDS_PER_YEAR == b);
    }
    assert(a / (SECONDS_PER_YEAR as int) <= u128::MAX) by {
        vstd::arithmetic::div_mod::lemma_div_is_ordered(a, u64::MAX * DECIMAL_FRACTIONAL, SECONDS_PER_YEAR as int);
    }
}

/// The rewards of `principal_decimal` at `apr` over `duration_seconds`.
pub fn calculate_period_rewards(principal_decimal: Decimal, apr: Decimal, duration_seconds: u64) -> (r:
    Option<Decimal>)
    ensures
        r == spec_period_rewards(principal_decimal, apr, duration_seconds as int),
{
    proof {
        lemma_year_fraction(duration_seconds);
    }
    let seconds_per_year = seconds_to_decimal(SECONDS_PER_YEAR);
    let period_duration = seconds_to_decimal(duration_seconds);
    let year_fraction = match decimal_checked_div(period_duration, seconds_per_year) {
        Some(d) => d,
        None => {
            assert(false);
            return None;
        },
    };
    match decimal_checked_mul(principal_decimal, apr) {
        Some(per_year) => decimal_checked_mul(per_year, year_fraction),
        None => None,
    }
}

// ---------------------------------------------------------------------------
// Rewards across years
// ---------------------------------------------------------------------------

/// The end of the lockup year that second `from` falls into, for a lockup
/// started at second `start`.
pub open spec fn spec_year_end(start: int, from: int) -> int {
    start + ((from - start) / (SECONDS_PER_YEAR as int) + 1) * SECONDS_PER_YEAR
}

/// A lockup year ends after any second in it, and at most a year later.
pub proof fn lemma_year_end_after(start: int, from: int)
    requires
        start <= from,
    ensures
        from < spec_year_end(start, from) <= from + SECONDS_PER_YEAR,
{
    vstd::arithmetic::div_mod::lemma_fundamental_div_mod(from - start, SECONDS_PER_YEAR as int);
}

/// The rewards of `principal` from second `from` to second `to`, added to
/// `acc`: the interval is cut at the ends of the lockup years (counted from
/// `start`), and each piece earns the APR of its year; `None` when the
/// arithmetic overflows or `from` precedes the start.
pub open spec fn spec_progressive_from(
    principal: Decimal,
    base: Decimal,
    t: TierConfig,
    start: int,
    from: int,
    to: int,
    acc: Decimal,
) -> Option<Decimal>
    decreases to - from,
{
    if from >= to {
        Some(acc)
    } else if from < start {
        None
    } else {
        let year = (from - start) / (SECONDS_PER_YEAR as int);
        match spec_apr_for_year(base, t, year) {
            None => None,
            Some(apr) => {
                let year_end = spec_year_end(start, from);
                if year_end > u64::MAX {
                    None
                } else {
                    let end = if year_end < to {
                        year_end
                    } else {
                        to
                    };
                    proof {
                        lemma_year_end_after(start, from);
                    }
                    match spec_period_rewards(principal, apr, end - from) {
                        None => None,
                        Some(r) => match spec_decimal_add(acc, r) {
                            None => None,
                            Some(acc2) => spec_progressive_from(principal, base, t, start, end, to, acc2),
                        },
                    }
                }
            },
        }
    }
}

/// Rewards of a lockup over `duration` seconds at `apr`, in whole units;
/// `None` when the arithmetic overflows.
pub open spec fn spec_simple_rewards(lockup: Lockup, apr: Decimal, duration: int) -> Option<u128> {
    match spec_decimal_from_integer(lockup.principal_amount.amount as int) {
        None => None,
        Some(p) => match spec_period_rewards(p, apr, duration) {
            None => None,
            Some(r) => Some(spec_decimal_floor(r)),
        },
    }
}

/// Rewards of a lockup from second `from` to second `to`, each lockup year at
/// its own APR, in whole units; `None` when the arithmetic overflows.
pub open spec fn spec_progressive_rewards(lockup: Lockup, from: int, to: int, t: TierConfig) -> Option<u128> {
    match spec_decimal_from_integer(lockup.principal_amount.amount as int) {
        None => None,
        Some(p) => match spec_progressive_from(
            p,
            lockup.annual_percentage_rate,
            t,
            (lockup.start_time.nanos / NANOS_PER_SECOND) as int,
            from,
            to,
            Decimal { atomics: 0 },
        ) {
            None => None,
            Some(r) => Some(spec_decimal_floor(r)),
        },
    }
}

/// The rewards a lockup has accrued at `now` since it was last paid out, in
/// whole units: none without an APR or when no time has passed; within one
/// lockup year, that year's APR over the elapsed seconds; across years, each
/// year at its own APR.  Every second thus earns the APR of the lockup year
/// it falls in, counted from the start and whatever the time of the last
/// payout: a period inside a later year earns that year's raised APR, not the
/// base APR.  `None` when the arithmetic overflows (or the last payout
/// precedes the start), where the computation aborts.
pub open spec fn spec_rewards(lockup: Lockup, now: Timestamp, t: TierConfig) -> Option<u128> {
    if lockup.annual_percentage_rate.atomics == 0 {
        Some(0)
    } else if now.nanos <= lockup.last_claim_time.nanos {
        Some(0)
    } else {
        let start = (lockup.start_time.nanos / NANOS_PER_SECOND) as int;
        let last = (lockup.last_claim_time.nanos / NANOS_PER_SECOND) as int;
        let current = (now.nanos / NANOS_PER_SECOND) as int;
        if current < start || last < start {
            None
        } else if (current - start) / (SECONDS_PER_YEAR as int) == (last - start) / (
        SECONDS_PER_YEAR as int) {
            match spec_apr_for_year(
                lockup.annual_percentage_rate,
                t,
                (last - start) / (SECONDS_PER_YEAR as int),
            ) {
                None => None,
                Some(apr) => spec_simple_rewards(lockup, apr, current - last),
            }
        } else {
            spec_progressive_rewards(lockup, last, current, t)
        }
    }
}

/// Rewards of `lockup` over `duration_seconds` at `annual_percentage_rate`,
/// the APR of the lockup year the period lies in.
pub fn calculate_simple_rewards(lockup: &Lockup, annual_percentage_rate: Decimal, duration_seconds: u64) -> (r:
    Option<u128>)
    ensures
        r == spec_simple_rewards(*lockup, annual_percentage_rate, duration_seconds as int),
{
    let principal_decimal = match decimal_from_integer(lockup.principal_amount.amount) {
        Some(d) => d,
        None => return None,
    };
    match calculate_period_rewards(principal_decimal, annual_percentage_rate, duration_seconds) {
        Some(r) => Some(decimal_to_uint128(r)),
        None => None,
    }
}

/// The whole units of a decimal.
pub fn decimal_to_uint128(decimal: Decimal) -> (r: u128)
    ensures
        r == spec_decimal_floor(decimal),
{
    decimal.atomics / DECIMAL_FRACTIONAL
}

/// Rewards of `lockup` from second `last_claim_seconds` to second
/// `current_seconds`, each lockup year at its own APR.
pub fn calculate_progressive_rewards(
    lockup: &Lockup,
    last_claim_seconds: u64,
    current_seconds: u64,
    tier_config: &TierConfig,
) -> (r: Option<u128>)
    ensures
        r == spec_progressive_rewards(
            *lockup,
            last_claim_seconds as int,
            current_seconds as int,
            *tier_config,
        ),
{
    let principal_decimal = match decimal_from_integer(lockup.principal_amount.amount) {
        Some(d) => d,
        None => return None,
    };
    let start_seconds = lockup.start_time.seconds();
    let mut total_rewards = Decimal::zero();
    let mut calculation_start = last_claim_seconds;
    let ghost p = principal_decimal;
    let ghost base = lockup.annual_percentage_rate;
    let ghost whole = spec_progressive_from(
        p,
        base,
        *tier_config,
        start_seconds as int,
        last_claim_seconds as int,
        current_seconds as int,
        Decimal { atomics: 0 },
    );

    while calculation_start < current_seconds
        invariant
            calculation_start <= current_seconds || calculation_start == last_claim_seconds,
            start_seconds == lockup.start_time.nanos / NANOS_PER_SECOND,
            p == principal_decimal,
            spec_decimal_from_integer(lockup.principal_amount.amount as int) == Some(p),
            base == lockup.annual_percentage_rate,
            whole == spec_progressive_from(
                p,
                base,
                *tier_config,
                start_seconds as int,
                last_claim_seconds as int,
                current_seconds as int,
                Decimal { atomics: 0 },
            ),
            whole == spec_progressive_from(
                p,
                base,
                *tier_config,
                start_seconds as int,
                calculation_start as int,
                current_seconds as int,
                total_rewards,
            ),
        decreases current_seconds - calculation_start,
    {
        if calculation_start < start_seconds {
            return None;
        }
        let time_since_start = calculation_start - start_seconds;
        let year_index = get_year_index(time_since_start);
        let effective_apr = match calculate_apr_for_year(
            lockup.annual_percentage_rate,
            tier_config,
            year_index,
        ) {
            Some(a) => a,
            None => return None,
        };
        proof {
            lemma_year_end_after(start_seconds as int, calculation_start as int);
        }
        if start_seconds as u128 + (year_index as u128 + 1) * (SECONDS_PER_YEAR as u128) > u64::MAX as u128 {
            return None;
        }
        let year_end_seconds = get_year_end_seconds(start_seconds, year_index);
        let period_end = if year_end_seconds < current_seconds {
            year_end_seconds
        } else {
            current_seconds
        };
        let period_duration = period_end - calculation_start;
        let period_rewards = match calculate_period_rewards(
            principal_decimal,
            effective_apr,
            period_duration,
        ) {
            Some(r) => r,
            None => return None,
        };
        total_rewards = match decimal_checked_add(total_rewards, period_rewards) {
            Some(t) => t,
            None => return None,
        };
        calculation_start = period_end;
    }
    Some(decimal_to_uint128(total_rewards))
}

/// The rewards `lockup` has accrued at `current_time`, in `denom`, each
/// second at the APR of its lockup year (also when the last payout and now
/// lie in the same later year); `None` when the arithmetic overflows, where
/// the computation aborts.
pub fn calculate_rewards(
    lockup: &Lockup,
    current_time: Timestamp,
    denom: &String,
    tier_config: &TierConfig,
) -> (r: Option<Coin>)
    ensures
        match spec_rewards(*lockup, current_time, *tier_config) {
            Some(amount) => r == Some(Coin { denom: *denom, amount }),
            None => r is None,
        },
{
    if lockup.annual_percentage_rate.is_zero() {
        return Some(Coin::new(0, denom));
    }
    if current_time.nanos <= lockup.last_claim_time.nanos {
        return Some(Coin::new(0, denom));
    }
    let start_seconds = lockup.start_time.seconds();
    let last_claim_seconds = lockup.last_claim_time.seconds();
    let current_seconds = current_time.seconds();

    if current_seconds < start_seconds || last_claim_seconds < start_seconds {
        return None;
    }
    let time_since_start = current_seconds - start_seconds;
    let last_claim_time_since_start = last_claim_seconds - start_seconds;

    let current_year = get_year_index(time_since_start);
    let last_claim_year = get_year_index(last_claim_time_since_start);

    let reward_amount = if current_year == last_claim_year {
        let year_apr = match calculate_apr_for_year(lockup.annual_percentage_rate, tier_config, last_claim_year) {
            Some(a) => a,
            None => return None,
        };
        calculate_simple_rewards(lockup, year_apr, current_seconds - last_claim_seconds)
    } else {
        calculate_progressive_rewards(lockup, last_claim_seconds, current_seconds, tier_config)
    };
    match reward_amount {
        Some(amount) => Some(Coin::new(amount, denom)),
        None => None,
    }
}

} // verus!
