//! Properties of the contract that span its functions.

use vstd::prelude::*;

use crate::contract::{
    execution_frame, claim_post, lock_post, unlock_post, spec_available_rewards, spec_claim, spec_lock, spec_unlock, spec_upgrade, spec_upgrade_apr,
    spec_yearly_rewards, LockupParams,
};
use crate::error::ContractError;
use crate::math::{
    spec_decimal_add, spec_decimal_floor, spec_decimal_from_integer, spec_decimal_mul, Decimal,
    Timestamp, DECIMAL_FRACTIONAL, NANOS_PER_SECOND,
};
use crate::msg::{Env, MessageInfo, Response};
use crate::rewards::{
    spec_apr_for_amount, spec_apr_for_year, spec_period_rewards, spec_progressive_from,
    spec_progressive_rewards,
    spec_rewards, spec_tier_for_amount, spec_year_end, spec_year_fraction, lemma_year_end_after,
    SECONDS_PER_YEAR,
};
use crate::state::{
    Coin, first_lockup_of, lemma_find_lockup, owners_distinct, spec_find_lockup, Lockup, State, TierConfig,
};

verus! {

/// A larger deposit never falls into a lower tier.
pub proof fn law_tier_monotone(a: u128, b: u128, t: TierConfig)
    requires
        a <= b,
    ensures
        spec_tier_for_amount(a, t) <= spec_tier_for_amount(b, t),
{
}

/// Adding to a lockup gives it the APR of the tier of the combined deposit:
/// the tier can only rise, and when it does not rise the APR stays.
pub proof fn law_upgrade_apr_is_combined_tier_apr(new_amount: u128, existing_amount: u128, t: TierConfig)
    requires
        new_amount + existing_amount <= u128::MAX,
    ensures
        spec_upgrade_apr(new_amount, existing_amount, t) == spec_apr_for_amount(
            (new_amount + existing_amount) as u128,
            t,
        ),
{
    law_tier_monotone(existing_amount, (new_amount + existing_amount) as u128, t);
}

/// An upgrade keeps the lockup's unlock time and start time.
pub proof fn law_upgrade_keeps_times(e: Lockup, now: Timestamp, amount: u128, t: TierConfig)
    requires
        spec_upgrade(e, now, amount, t) is Some,
        spec_upgrade(e, now, amount, t).unwrap() is Ok,
    ensures
        spec_upgrade(e, now, amount, t).unwrap().unwrap().0.unlock_time == e.unlock_time,
        spec_upgrade(e, now, amount, t).unwrap().unwrap().0.start_time == e.start_time,
{
}

/// A lockup stored by a lock always carries the APR of its deposit's tier.
pub proof fn law_locked_apr_follows_tier(s: State, env: Env, info: MessageInfo)
    requires
        spec_lock(s, env, info) is Some,
        spec_lock(s, env, info).unwrap() is Ok,
    ensures
        spec_lock(s, env, info).unwrap().unwrap().0.annual_percentage_rate == spec_apr_for_amount(
            spec_lock(s, env, info).unwrap().unwrap().0.principal_amount.amount,
            s.config.tier_config,
        ),
{
    let funds = info.funds@;
    match crate::state::spec_find_lockup(s.lockups@, info.sender@) {
        Some(i) => {
            let e = s.lockups@[i];
            if funds[0].amount + e.principal_amount.amount <= u128::MAX {
                law_upgrade_apr_is_combined_tier_apr(
                    funds[0].amount,
                    e.principal_amount.amount,
                    s.config.tier_config,
                );
            }
        },
        None => {},
    }
}

/// The APR of a later lockup year is at least the base APR, at most the base
/// APR plus the maximum increase, and never below that of an earlier year.
pub proof fn law_apr_grows_within_cap(base: Decimal, t: TierConfig, k1: int, k2: int)
    requires
        0 <= k1 <= k2,
        spec_apr_for_year(base, t, k1) is Some,
        spec_apr_for_year(base, t, k2) is Some,
    ensures
        base.atomics <= spec_apr_for_year(base, t, k1).unwrap().atomics,
        spec_apr_for_year(base, t, k2).unwrap().atomics <= base.atomics + t.max_percentage_increase.atomics,
        spec_apr_for_year(base, t, k1).unwrap().atomics <= spec_apr_for_year(base, t, k2).unwrap().atomics,
{
    let inc = t.percentage_increase_per_year.atomics as int;
    assert(k1 * inc <= k2 * inc) by (nonlinear_arith)
        requires
            0 <= k1 <= k2,
            0 <= inc,
    ;
    assert(0 <= k1 * inc) by (nonlinear_arith)
        requires
            0 <= k1,
            0 <= inc,
    ;
}

/// Right after rewards are paid out, nothing more is pending.
pub proof fn law_nothing_pending_after_payout(l: Lockup, now: Timestamp, t: TierConfig)
    ensures
        spec_rewards(Lockup { last_claim_time: now, ..l }, now, t) == Some(0u128),
{
}

/// A claim pays out exactly the pending rewards, only when they are not zero
/// and the funds available for rewards cover them.
pub proof fn law_claim_covered(s: State, now: Timestamp, i: int)
    requires
        spec_claim(s, now, i) matches Some(Ok(_)),
    ensures
        spec_rewards(s.lockups@[i], now, s.config.tier_config) == Some(spec_claim(s, now, i).unwrap().unwrap()),
        spec_claim(s, now, i).unwrap().unwrap() > 0,
        spec_claim(s, now, i).unwrap().unwrap() <= spec_available_rewards(s, now).unwrap(),
{
}

/// The principal is never paid out before the unlock time, and the rewards
/// paid with it are the pending rewards, covered by the available funds.
pub proof fn law_unlock_after_unlock_time(s: State, now: Timestamp, i: int)
    requires
        spec_unlock(s, now, i) matches Some(Ok(_)),
    ensures
        now.nanos >= s.lockups@[i].unlock_time.nanos,
        spec_rewards(s.lockups@[i], now, s.config.tier_config) == Some(spec_unlock(s, now, i).unwrap().unwrap()),
        spec_unlock(s, now, i).unwrap().unwrap() <= spec_available_rewards(s, now).unwrap(),
{
}

/// The funds available for rewards never exceed the balance; where the
/// balance covers all principals and pending rewards, they are exactly what
/// is left.
pub proof fn law_available_within_balance(s: State, now: Timestamp)
    requires
        spec_available_rewards(s, now) is Some,
    ensures
        spec_available_rewards(s, now).unwrap() <= s.balance,
        s.balance >= crate::contract::principal_sum(s.lockups@) + crate::contract::pending_sum(
            s.lockups@,
            now,
            s.config.tier_config,
        ).unwrap() ==> spec_available_rewards(s, now).unwrap() + crate::contract::principal_sum(
            s.lockups@,
        ) + crate::contract::pending_sum(s.lockups@, now, s.config.tier_config).unwrap() == s.balance,
{
    let ls = s.lockups@;
    assert(ls.take(ls.len() as int) == ls);
    crate::contract::lemma_principal_sum_prefix(ls, ls.len() as int, ls.len() as int);
    crate::contract::lemma_pending_sum_prefix(ls, ls.len() as int, ls.len() as int, now, s.config.tier_config);
}

/// Over its first year, a lockup earns its principal times its base APR
/// (rounded down to a whole unit).
pub proof fn law_first_year_rewards(l: Lockup, t: TierConfig)
    requires
        l.annual_percentage_rate.atomics != 0,
        (l.start_time.nanos / NANOS_PER_SECOND + SECONDS_PER_YEAR) * NANOS_PER_SECOND <= u64::MAX,
        l.principal_amount.amount * DECIMAL_FRACTIONAL <= u128::MAX,
        l.principal_amount.amount * l.annual_percentage_rate.atomics <= u128::MAX,
    ensures
        spec_yearly_rewards(l, t) == Some(
            (l.principal_amount.amount * l.annual_percentage_rate.atomics / (DECIMAL_FRACTIONAL as int)) as u128,
        ),
{
    let amount = l.principal_amount.amount as int;
    let apr = l.annual_percentage_rate;
    let start = (l.start_time.nanos / NANOS_PER_SECOND) as int;
    let year_later = (start + SECONDS_PER_YEAR) * NANOS_PER_SECOND;
    let sim = Lockup { last_claim_time: l.start_time, ..l };
    let now = Timestamp { nanos: year_later as u64 };
    let d = DECIMAL_FRACTIONAL as int;
    let p = Decimal { atomics: (amount * d) as u128 };
    assert(now.nanos / NANOS_PER_SECOND == start + SECONDS_PER_YEAR);
    assert(l.start_time.nanos < now.nanos);
    assert((SECONDS_PER_YEAR as int) / (SECONDS_PER_YEAR as int) == 1);
    // the principal times the APR is exact
    assert((amount * d) * apr.atomics == (amount * apr.atomics) * d) by (nonlinear_arith);
    vstd::arithmetic::div_mod::lemma_div_by_multiple(amount * apr.atomics, d);
    let per_year = Decimal { atomics: (amount * apr.atomics) as u128 };
    assert(spec_decimal_mul(p, apr) == Some(per_year));
    // a whole year is the fraction one
    assert(spec_year_fraction(SECONDS_PER_YEAR as int).atomics == d);
    vstd::arithmetic::div_mod::lemma_div_by_multiple(amount * apr.atomics, d);
    assert(spec_decimal_mul(per_year, spec_year_fraction(SECONDS_PER_YEAR as int)) == Some(per_year));
    assert(spec_period_rewards(p, apr, SECONDS_PER_YEAR as int) == Some(per_year));
    assert(spec_year_end(start, start) == start + SECONDS_PER_YEAR);
    assert(spec_decimal_add(Decimal { atomics: 0 }, per_year) == Some(per_year));
    assert(spec_progressive_from(p, apr, t, start, start + SECONDS_PER_YEAR, start + SECONDS_PER_YEAR, per_year) == Some(per_year));
    assert(spec_progressive_from(p, apr, t, start, start, start + SECONDS_PER_YEAR, Decimal { atomics: 0 }) == Some(per_year));
    assert(spec_decimal_from_integer(amount) == Some(p));
    assert(spec_rewards(sim, now, t) == Some(spec_decimal_floor(per_year)));
}

proof fn lemma_mul_monotone(a1: Decimal, b1: Decimal, a2: Decimal, b2: Decimal)
    requires
        a1.atomics <= a2.atomics,
        b1.atomics <= b2.atomics,
        spec_decimal_mul(a1, b1) is Some,
        spec_decimal_mul(a2, b2) is Some,
    ensures
        spec_decimal_mul(a1, b1).unwrap().atomics <= spec_decimal_mul(a2, b2).unwrap().atomics,
{
    let x1 = a1.atomics as int;
    let y1 = b1.atomics as int;
    let x2 = a2.atomics as int;
    let y2 = b2.atomics as int;
    assert(x1 * y1 <= x2 * y2) by (nonlinear_arith)
        requires
            0 <= x1 <= x2,
            0 <= y1 <= y2,
    ;
    vstd::arithmetic::div_mod::lemma_div_is_ordered(x1 * y1, x2 * y2, DECIMAL_FRACTIONAL as int);
}

proof fn lemma_period_monotone(p: Decimal, apr1: Decimal, apr2: Decimal, d1: int, d2: int)
    requires
        apr1.atomics <= apr2.atomics,
        0 <= d1 <= d2 <= u64::MAX,
        spec_period_rewards(p, apr1, d1) is Some,
        spec_period_rewards(p, apr2, d2) is Some,
    ensures
        spec_period_rewards(p, apr1, d1).unwrap().atomics <= spec_period_rewards(p, apr2, d2).unwrap().atomics,
{
    lemma_mul_monotone(p, apr1, p, apr2);
    vstd::arithmetic::div_mod::lemma_div_is_ordered(
        d1 * DECIMAL_FRACTIONAL,
        d2 * DECIMAL_FRACTIONAL,
        SECONDS_PER_YEAR as int,
    );
    vstd::arithmetic::div_mod::lemma_div_is_ordered(
        d2 * DECIMAL_FRACTIONAL,
        u64::MAX * DECIMAL_FRACTIONAL,
        SECONDS_PER_YEAR as int,
    );
    vstd::arithmetic::div_mod::lemma_div_is_ordered(0, d1 * DECIMAL_FRACTIONAL, SECONDS_PER_YEAR as int);
    lemma_mul_monotone(
        spec_decimal_mul(p, apr1).unwrap(),
        spec_year_fraction(d1),
        spec_decimal_mul(p, apr2).unwrap(),
        spec_year_fraction(d2),
    );
}

proof fn lemma_progressive_above_acc(
    p: Decimal,
    base: Decimal,
    t: TierConfig,
    start: int,
    from: int,
    to: int,
    acc: Decimal,
)
    requires
        spec_progressive_from(p, base, t, start, from, to, acc) is Some,
    ensures
        acc.atomics <= spec_progressive_from(p, base, t, start, from, to, acc).unwrap().atomics,
    decreases to - from,
{
    if from < to && from >= start {
        let year = (from - start) / (SECONDS_PER_YEAR as int);
        let apr = spec_apr_for_year(base, t, year).unwrap();
        let year_end = spec_year_end(start, from);
        let end = if year_end < to {
            year_end
        } else {
            to
        };
        lemma_year_end_after(start, from);
        let r = spec_period_rewards(p, apr, end - from).unwrap();
        let acc2 = spec_decimal_add(acc, r).unwrap();
        lemma_progressive_above_acc(p, base, t, start, end, to, acc2);
    }
}

proof fn lemma_progressive_monotone(
    p: Decimal,
    base: Decimal,
    t: TierConfig,
    start: int,
    from: int,
    to1: int,
    to2: int,
    acc: Decimal,
)
    requires
        to1 <= to2,
        spec_progressive_from(p, base, t, start, from, to1, acc) is Some,
        spec_progressive_from(p, base, t, start, from, to2, acc) is Some,
    ensures
        spec_progressive_from(p, base, t, start, from, to1, acc).unwrap().atomics
            <= spec_progressive_from(p, base, t, start, from, to2, acc).unwrap().atomics,
    decreases to2 - from,
{
    if from >= to1 {
        lemma_progressive_above_acc(p, base, t, start, from, to2, acc);
    } else {
        let year = (from - start) / (SECONDS_PER_YEAR as int);
        let apr = spec_apr_for_year(base, t, year).unwrap();
        let year_end = spec_year_end(start, from);
        lemma_year_end_after(start, from);
        let end1 = if year_end < to1 {
            year_end
        } else {
            to1
        };
        let end2 = if year_end < to2 {
            year_end
        } else {
            to2
        };
        let r1 = spec_period_rewards(p, apr, end1 - from).unwrap();
        let r2 = spec_period_rewards(p, apr, end2 - from).unwrap();
        let acc1 = spec_decimal_add(acc, r1).unwrap();
        let acc2 = spec_decimal_add(acc, r2).unwrap();
        if end1 == end2 {
            lemma_progressive_monotone(p, base, t, start, end1, to1, to2, acc1);
        } else {
            lemma_period_monotone(p, apr, apr, end1 - from, end2 - from);
            lemma_progressive_above_acc(p, base, t, start, end2, to2, acc2);
            assert(spec_progressive_from(p, base, t, start, end1, to1, acc1) == Some(acc1));
        }
    }
}

/// Past the first second after the last payout, the rewards of a lockup are
/// its year-by-year accrual from the last payout: a period inside one lockup
/// year earns that year's APR.
pub proof fn law_rewards_year_by_year(l: Lockup, now: Timestamp, t: TierConfig)
    requires
        l.annual_percentage_rate.atomics != 0,
        l.start_time.nanos / NANOS_PER_SECOND <= l.last_claim_time.nanos / NANOS_PER_SECOND,
        l.last_claim_time.nanos / NANOS_PER_SECOND < now.nanos / NANOS_PER_SECOND,
    ensures
        spec_rewards(l, now, t) == spec_progressive_rewards(
            l,
            (l.last_claim_time.nanos / NANOS_PER_SECOND) as int,
            (now.nanos / NANOS_PER_SECOND) as int,
            t,
        ),
{
    let y = SECONDS_PER_YEAR as int;
    let start = (l.start_time.nanos / NANOS_PER_SECOND) as int;
    let last = (l.last_claim_time.nanos / NANOS_PER_SECOND) as int;
    let current = (now.nanos / NANOS_PER_SECOND) as int;
    assert(l.last_claim_time.nanos < now.nanos) by {
        if now.nanos <= l.last_claim_time.nanos {
            vstd::arithmetic::div_mod::lemma_div_is_ordered(
                now.nanos as int,
                l.last_claim_time.nanos as int,
                NANOS_PER_SECOND as int,
            );
        }
    }
    let ly = (last - start) / y;
    if (current - start) / y == ly {
        lemma_year_end_after(start, last);
        vstd::arithmetic::div_mod::lemma_fundamental_div_mod(current - start, y);
        vstd::arithmetic::div_mod::lemma_fundamental_div_mod(last - start, y);
        let year_end = spec_year_end(start, last);
        assert(current < year_end);
        assert(year_end <= u64::MAX) by {
            vstd::arithmetic::div_mod::lemma_div_is_ordered(
                l.last_claim_time.nanos as int,
                u64::MAX as int,
                NANOS_PER_SECOND as int,
            );
        }
        match spec_decimal_from_integer(l.principal_amount.amount as int) {
            None => {},
            Some(p) => {
                let zero = Decimal { atomics: 0 };
                match spec_apr_for_year(l.annual_percentage_rate, t, ly) {
                    None => {},
                    Some(apr) => {
                        match spec_period_rewards(p, apr, current - last) {
                            None => {},
                            Some(r) => {
                                assert(spec_decimal_add(zero, r) == Some(r));
                                assert(spec_progressive_from(
                                    p,
                                    l.annual_percentage_rate,
                                    t,
                                    start,
                                    current,
                                    current,
                                    r,
                                ) == Some(r));
                            },
                        }
                    },
                }
            },
        }
    }
}

/// Rewards only accrue: the rewards pending on a lockup at a later time are
/// never less than at an earlier time.
pub proof fn law_rewards_monotone_in_time(l: Lockup, now1: Timestamp, now2: Timestamp, t: TierConfig)
    requires
        now1.nanos <= now2.nanos,
        spec_rewards(l, now1, t) is Some,
        spec_rewards(l, now2, t) is Some,
    ensures
        spec_rewards(l, now1, t).unwrap() <= spec_rewards(l, now2, t).unwrap(),
{
    if l.annual_percentage_rate.atomics == 0 || now1.nanos <= l.last_claim_time.nanos {
    } else {
        let n = NANOS_PER_SECOND as int;
        let start = (l.start_time.nanos / NANOS_PER_SECOND) as int;
        let last = (l.last_claim_time.nanos / NANOS_PER_SECOND) as int;
        let c1 = (now1.nanos / NANOS_PER_SECOND) as int;
        let c2 = (now2.nanos / NANOS_PER_SECOND) as int;
        vstd::arithmetic::div_mod::lemma_div_is_ordered(now1.nanos as int, now2.nanos as int, n);
        vstd::arithmetic::div_mod::lemma_div_is_ordered(
            l.last_claim_time.nanos as int,
            now1.nanos as int,
            n,
        );
        let p = spec_decimal_from_integer(l.principal_amount.amount as int).unwrap();
        let base = l.annual_percentage_rate;
        let zero = Decimal { atomics: 0 };
        if c1 == last {
            // no whole second has passed: nothing has accrued yet
            let apr = spec_apr_for_year(base, t, (last - start) / (SECONDS_PER_YEAR as int)).unwrap();
            let per_year = spec_decimal_mul(p, apr).unwrap();
            assert(spec_year_fraction(0).atomics == 0);
            assert(spec_decimal_mul(per_year, spec_year_fraction(0)) == Some(zero));
        } else {
            law_rewards_year_by_year(l, now1, t);
            law_rewards_year_by_year(l, now2, t);
            lemma_progressive_monotone(p, base, t, start, last, c1, c2, zero);
            vstd::arithmetic::div_mod::lemma_div_is_ordered(
                spec_progressive_from(p, base, t, start, last, c1, zero).unwrap().atomics as int,
                spec_progressive_from(p, base, t, start, last, c2, zero).unwrap().atomics as int,
                DECIMAL_FRACTIONAL as int,
            );
        }
    }
}


proof fn lemma_find_after_update(ls: Seq<Lockup>, i: int, l: Lockup)
    requires
        first_lockup_of(ls, l.owner@, i),
    ensures
        spec_find_lockup(ls.update(i, l), l.owner@) == Some(i),
{
    let n = ls.update(i, l);
    let o = l.owner@;
    assert(first_lockup_of(n, o, i));
    let k = choose|k: int| first_lockup_of(n, o, k);
    if k < i {
        assert(n[k] == ls[k]);
    } else if k > i {
        assert(n[i].owner@ == o);
    }
}

proof fn lemma_find_after_push(ls: Seq<Lockup>, l: Lockup)
    requires
        forall|j: int| 0 <= j < ls.len() ==> ls[j].owner@ != l.owner@,
    ensures
        spec_find_lockup(ls.push(l), l.owner@) == Some(ls.len() as int),
{
    let n = ls.push(l);
    let o = l.owner@;
    assert forall|j: int| 0 <= j < ls.len() implies n[j].owner@ != o by {
        assert(n[j] == ls[j]);
    }
    assert(first_lockup_of(n, o, ls.len() as int));
    let k = choose|k: int| first_lockup_of(n, o, k);
    if k < ls.len() {
        assert(n[k] == ls[k]);
    }
}

/// What a lock stores is what a lookup of the sender then finds: after a
/// successful lock, the sender's lockup is the one the lock decided on.
pub proof fn law_lookup_after_lock(
    s0: State,
    s1: State,
    env: Env,
    info: MessageInfo,
    r: Option<Result<Response, ContractError>>,
)
    requires
        lock_post(s0, s1, env, info, r),
        r matches Some(Ok(_)),
    ensures
        spec_lock(s0, env, info) matches Some(Ok((l, _))) && spec_find_lockup(
            s1.lockups@,
            info.sender@,
        ) matches Some(i) && s1.lockups@[i] == l,
{
    let (l, _c) = spec_lock(s0, env, info).unwrap().unwrap();
    let ls = s0.lockups@;
    assert(l.owner@ == info.sender@);
    lemma_find_lockup(ls, l.owner@);
    match spec_find_lockup(ls, l.owner@) {
        Some(i) => lemma_find_after_update(ls, i, l),
        None => lemma_find_after_push(ls, l),
    }
}

/// After a successful claim, the sender's lockup has nothing pending at the
/// time of the claim.
pub proof fn law_nothing_pending_after_claim(
    s0: State,
    s1: State,
    env: Env,
    info: MessageInfo,
    r: Option<Result<Response, ContractError>>,
)
    requires
        claim_post(s0, s1, env, info, r),
        r matches Some(Ok(_)),
    ensures
        spec_find_lockup(s1.lockups@, info.sender@) matches Some(i) && spec_rewards(
            s1.lockups@[i],
            env.block_time,
            s0.config.tier_config,
        ) == Some(0u128),
{
    let ls = s0.lockups@;
    lemma_find_lockup(ls, info.sender@);
    let i = spec_find_lockup(ls, info.sender@).unwrap();
    let l = Lockup { last_claim_time: env.block_time, ..ls[i] };
    lemma_find_after_update(ls, i, l);
    law_nothing_pending_after_payout(ls[i], env.block_time, s0.config.tier_config);
}

/// After a successful unlock, the sender has no lockup left (where owners
/// were distinct before).
pub proof fn law_no_lockup_after_unlock(
    s0: State,
    s1: State,
    env: Env,
    info: MessageInfo,
    r: Option<Result<Response, ContractError>>,
)
    requires
        owners_distinct(s0.lockups@),
        unlock_post(s0, s1, env, info, r),
        r matches Some(Ok(_)),
    ensures
        spec_find_lockup(s1.lockups@, info.sender@) is None,
{
    let ls = s0.lockups@;
    lemma_find_lockup(ls, info.sender@);
    let i = spec_find_lockup(ls, info.sender@).unwrap();
    let n = ls.remove(i);
    assert forall|k: int| 0 <= k < n.len() implies n[k].owner@ != info.sender@ by {
        if k < i {
            assert(n[k] == ls[k]);
        } else {
            assert(n[k] == ls[k + 1]);
        }
    }
    lemma_find_lockup(n, info.sender@);
}

/// Rewards keep accruing past the unlock time: what a lockup has pending does
/// not depend on its unlock time.
pub proof fn law_rewards_ignore_unlock_time(l: Lockup, unlock_time: Timestamp, now: Timestamp, t: TierConfig)
    ensures
        spec_rewards(Lockup { unlock_time, ..l }, now, t) == spec_rewards(l, now, t),
{
}

// ---------------------------------------------------------------------------
// Claiming in between
// ---------------------------------------------------------------------------

/// The atomic units one piece of accrual adds: the principal times the APR,
/// then times the share of a year, each product rounded down.
pub open spec fn piece_atomics(principal: int, apr: int, duration: int) -> int {
    (principal * apr / (DECIMAL_FRACTIONAL as int)) * (spec_year_fraction(duration).atomics as int) / (
    DECIMAL_FRACTIONAL as int)
}

/// The atomic units accrued from second `from` to second `to`, cut at the
/// ends of the lockup years, without regard to overflow.
pub open spec fn accrued_atomics(p: Decimal, base: Decimal, t: TierConfig, start: int, from: int, to: int) -> int
    decreases to - from,
{
    if from >= to || from < start {
        0
    } else {
        let year = (from - start) / (SECONDS_PER_YEAR as int);
        let year_end = spec_year_end(start, from);
        let end = if year_end < to {
            year_end
        } else {
            to
        };
        let apr = match spec_apr_for_year(base, t, year) {
            Some(a) => a.atomics as int,
            None => 0,
        };
        proof {
            lemma_year_end_after(start, from);
        }
        piece_atomics(p.atomics as int, apr, end - from) + accrued_atomics(p, base, t, start, end, to)
    }
}

proof fn lemma_progressive_is_accrued(
    p: Decimal,
    base: Decimal,
    t: TierConfig,
    start: int,
    from: int,
    to: int,
    acc: Decimal,
)
    requires
        spec_progressive_from(p, base, t, start, from, to, acc) is Some,
    ensures
        spec_progressive_from(p, base, t, start, from, to, acc).unwrap().atomics == acc.atomics
            + accrued_atomics(p, base, t, start, from, to),
    decreases to - from,
{
    if from < to && from >= start {
        let year = (from - start) / (SECONDS_PER_YEAR as int);
        let apr = spec_apr_for_year(base, t, year).unwrap();
        let year_end = spec_year_end(start, from);
        let end = if year_end < to {
            year_end
        } else {
            to
        };
        lemma_year_end_after(start, from);
        let r = spec_period_rewards(p, apr, end - from).unwrap();
        assert(r.atomics == piece_atomics(p.atomics as int, apr.atomics as int, end - from));
        let acc2 = spec_decimal_add(acc, r).unwrap();
        lemma_progressive_is_accrued(p, base, t, start, end, to, acc2);
    }
}

proof fn lemma_fraction_split(d1: int, d2: int)
    requires
        0 <= d1,
        0 <= d2,
        d1 + d2 <= u64::MAX,
    ensures
        spec_year_fraction(d1).atomics + spec_year_fraction(d2).atomics <= spec_year_fraction(d1 + d2).atomics,
        spec_year_fraction(d1 + d2).atomics <= spec_year_fraction(d1).atomics + spec_year_fraction(d2).atomics + 1,
{
    let dd = DECIMAL_FRACTIONAL as int;
    let y = SECONDS_PER_YEAR as int;
    assert(0 <= d1 * dd && 0 <= d2 * dd) by (nonlinear_arith)
        requires
            0 <= d1,
            0 <= d2,
            dd > 0,
    ;
    assert((d1 + d2) * dd == d1 * dd + d2 * dd) by (nonlinear_arith);
    assert((d1 + d2) * dd <= u64::MAX * dd) by (nonlinear_arith)
        requires
            d1 + d2 <= u64::MAX,
            dd > 0,
    ;
    vstd::arithmetic::div_mod::lemma_div_is_ordered(d1 * dd, u64::MAX * dd, y);
    vstd::arithmetic::div_mod::lemma_div_is_ordered(d2 * dd, u64::MAX * dd, y);
    vstd::arithmetic::div_mod::lemma_div_is_ordered((d1 + d2) * dd, u64::MAX * dd, y);
    vstd::arithmetic::div_mod::lemma_fundamental_div_mod(d1 * dd, y);
    vstd::arithmetic::div_mod::lemma_fundamental_div_mod(d2 * dd, y);
    vstd::arithmetic::div_mod::lemma_fundamental_div_mod((d1 + d2) * dd, y);
    let q1 = d1 * dd / y;
    let q2 = d2 * dd / y;
    let q = (d1 + d2) * dd / y;
    assert(q1 + q2 <= q && q <= q1 + q2 + 1) by (nonlinear_arith)
        requires
            d1 * dd == y * q1 + (d1 * dd) % y,
            d2 * dd == y * q2 + (d2 * dd) % y,
            (d1 + d2) * dd == y * q + ((d1 + d2) * dd) % y,
            (d1 + d2) * dd == d1 * dd + d2 * dd,
            0 <= (d1 * dd) % y < y,
            0 <= (d2 * dd) % y < y,
            0 <= ((d1 + d2) * dd) % y < y,
            y > 0,
    ;
}

proof fn lemma_piece_split(w: int, d1: int, d2: int)
    requires
        0 <= w,
        0 <= d1,
        0 <= d2,
        d1 + d2 <= u64::MAX,
    ensures
        w * (spec_year_fraction(d1).atomics as int) / (DECIMAL_FRACTIONAL as int) + w * (spec_year_fraction(
            d2,
        ).atomics as int) / (DECIMAL_FRACTIONAL as int) <= w * (spec_year_fraction(d1 + d2).atomics as int) / (
        DECIMAL_FRACTIONAL as int),
        w * (spec_year_fraction(d1 + d2).atomics as int) / (DECIMAL_FRACTIONAL as int) <= w * (
        spec_year_fraction(d1).atomics as int) / (DECIMAL_FRACTIONAL as int) + w * (spec_year_fraction(
            d2,
        ).atomics as int) / (DECIMAL_FRACTIONAL as int) + w / (DECIMAL_FRACTIONAL as int) + 2,
{
    lemma_fraction_split(d1, d2);
    let dd = DECIMAL_FRACTIONAL as int;
    let f1 = spec_year_fraction(d1).atomics as int;
    let f2 = spec_year_fraction(d2).atomics as int;
    let f = spec_year_fraction(d1 + d2).atomics as int;
    let x1 = w * f1;
    let x2 = w * f2;
    let x = w * f;
    assert(x1 + x2 <= x && x <= x1 + x2 + w) by (nonlinear_arith)
        requires
            0 <= w,
            f1 + f2 <= f,
            f <= f1 + f2 + 1,
            x1 == w * f1,
            x2 == w * f2,
            x == w * f,
    ;
    assert(0 <= x1 && 0 <= x2) by (nonlinear_arith)
        requires
            0 <= w,
            0 <= f1,
            0 <= f2,
            x1 == w * f1,
            x2 == w * f2,
    ;
    vstd::arithmetic::div_mod::lemma_fundamental_div_mod(x1, dd);
    vstd::arithmetic::div_mod::lemma_fundamental_div_mod(x2, dd);
    vstd::arithmetic::div_mod::lemma_fundamental_div_mod(x, dd);
    vstd::arithmetic::div_mod::lemma_fundamental_div_mod(w, dd);
}

proof fn lemma_accrued_split(
    p: Decimal,
    base: Decimal,
    t: TierConfig,
    start: int,
    a: int,
    b: int,
    c: int,
)
    requires
        start <= a <= b <= c <= u64::MAX,
    ensures
        accrued_atomics(p, base, t, start, a, b) + accrued_atomics(p, base, t, start, b, c)
            <= accrued_atomics(p, base, t, start, a, c),
        accrued_atomics(p, base, t, start, a, c) <= accrued_atomics(p, base, t, start, a, b)
            + accrued_atomics(p, base, t, start, b, c) + (p.atomics as int) * (base.atomics
            + t.max_percentage_increase.atomics) / (DECIMAL_FRACTIONAL as int) / (DECIMAL_FRACTIONAL as int) + 2,
    decreases c - a,
{
    let y = SECONDS_PER_YEAR as int;
    let dd = DECIMAL_FRACTIONAL as int;
    if a == b || b == c {
    } else {
        let year = (a - start) / y;
        let year_end = spec_year_end(start, a);
        lemma_year_end_after(start, a);
        let apr = match spec_apr_for_year(base, t, year) {
            Some(x) => x.atomics as int,
            None => 0,
        };
        if year_end <= b {
            lemma_accrued_split(p, base, t, start, year_end, b, c);
        } else {
            // b lies in the same lockup year as a: the first piece is split at b
            vstd::arithmetic::div_mod::lemma_fundamental_div_mod(a - start, y);
            let yb = (b - start) / y;
            assert(yb == year) by {
                vstd::arithmetic::div_mod::lemma_div_is_ordered(a - start, b - start, y);
                if yb > year {
                    vstd::arithmetic::div_mod::lemma_fundamental_div_mod(b - start, y);
                    assert(y * yb >= y * (year + 1)) by (nonlinear_arith)
                        requires
                            yb >= year + 1,
                            y > 0,
                    ;
                }
            }
            assert(spec_year_end(start, b) == year_end);
            let end = if year_end < c {
                year_end
            } else {
                c
            };
            assert(accrued_atomics(p, base, t, start, b, b) == 0);
            let w = (p.atomics as int) * apr / dd;
            assert(0 <= (p.atomics as int) * apr) by (nonlinear_arith)
                requires
                    0 <= p.atomics,
                    0 <= apr,
            ;
            if apr != 0 {
                law_apr_grows_within_cap(base, t, 0, year);
            }
            assert((p.atomics as int) * apr <= (p.atomics as int) * (base.atomics + t.max_percentage_increase.atomics))
                by (nonlinear_arith)
                requires
                    0 <= p.atomics,
                    apr <= base.atomics + t.max_percentage_increase.atomics,
            ;
            let wm = (p.atomics as int) * (base.atomics + t.max_percentage_increase.atomics) / dd;
            vstd::arithmetic::div_mod::lemma_div_is_ordered(
                (p.atomics as int) * apr,
                (p.atomics as int) * (base.atomics + t.max_percentage_increase.atomics),
                dd,
            );
            vstd::arithmetic::div_mod::lemma_div_is_ordered(w, wm, dd);
            lemma_piece_split(w, b - a, end - b);
        }
    }
}

/// How many whole units rounding may cost when rewards are paid out in two
/// claims instead of one: two units for rounding each payout down, and, as
/// the share of a year is rounded down to an atomic unit, one atomic unit of
/// that share of the lockup's highest yearly rewards (principal times base
/// APR plus the maximum increase).  It is two units while those yearly
/// rewards stay below about 10^18 units.
pub open spec fn split_allowance(l: Lockup, t: TierConfig) -> int {
    2 + (l.principal_amount.amount * (l.annual_percentage_rate.atomics + t.max_percentage_increase.atomics)
        / (DECIMAL_FRACTIONAL as int) + 2) / (DECIMAL_FRACTIONAL as int)
}

/// Claiming in between costs at most the rounding allowance: the rewards
/// paid by a claim at `b` and a later one at `c` are never more than those of
/// one claim at `c`, and fall short of them by at most `split_allowance`.
pub proof fn law_claiming_in_between(l: Lockup, b: Timestamp, c: Timestamp, t: TierConfig)
    requires
        l.last_claim_time.nanos <= b.nanos <= c.nanos,
        spec_rewards(l, b, t) is Some,
        spec_rewards(Lockup { last_claim_time: b, ..l }, c, t) is Some,
        spec_rewards(l, c, t) is Some,
    ensures
        spec_rewards(l, b, t).unwrap() + spec_rewards(Lockup { last_claim_time: b, ..l }, c, t).unwrap()
            <= spec_rewards(l, c, t).unwrap(),
        spec_rewards(l, c, t).unwrap() <= spec_rewards(l, b, t).unwrap() + spec_rewards(
            Lockup { last_claim_time: b, ..l },
            c,
            t,
        ).unwrap() + split_allowance(l, t),
{
    let lb = Lockup { last_claim_time: b, ..l };
    let n = NANOS_PER_SECOND as int;
    let dd = DECIMAL_FRACTIONAL as int;
    if l.annual_percentage_rate.atomics == 0 {
    } else if b.nanos == l.last_claim_time.nanos {
        assert(lb == l);
    } else if c.nanos == b.nanos {
        assert(c == b);
    } else {
        let start = (l.start_time.nanos / NANOS_PER_SECOND) as int;
        let a_s = (l.last_claim_time.nanos / NANOS_PER_SECOND) as int;
        let b_s = (b.nanos / NANOS_PER_SECOND) as int;
        let c_s = (c.nanos / NANOS_PER_SECOND) as int;
        vstd::arithmetic::div_mod::lemma_div_is_ordered(l.last_claim_time.nanos as int, b.nanos as int, n);
        vstd::arithmetic::div_mod::lemma_div_is_ordered(b.nanos as int, c.nanos as int, n);
        vstd::arithmetic::div_mod::lemma_div_is_ordered(c.nanos as int, u64::MAX as int, n);
        let p = spec_decimal_from_integer(l.principal_amount.amount as int).unwrap();
        let base = l.annual_percentage_rate;
        let zero = Decimal { atomics: 0 };
        if a_s == b_s {
            let apr = spec_apr_for_year(base, t, (a_s - start) / (SECONDS_PER_YEAR as int)).unwrap();
            let per_year = spec_decimal_mul(p, apr).unwrap();
            assert(spec_year_fraction(0).atomics == 0);
            assert(spec_decimal_mul(per_year, spec_year_fraction(0)) == Some(zero));
            assert(spec_rewards(l, b, t) == Some(0u128));
            assert(spec_rewards(lb, c, t) == spec_rewards(l, c, t));
        } else if b_s == c_s {
            let apr = spec_apr_for_year(base, t, (b_s - start) / (SECONDS_PER_YEAR as int)).unwrap();
            let per_year = spec_decimal_mul(p, apr).unwrap();
            assert(spec_year_fraction(0).atomics == 0);
            assert(spec_decimal_mul(per_year, spec_year_fraction(0)) == Some(zero));
            assert(spec_rewards(lb, c, t) == Some(0u128));
            assert(spec_rewards(l, b, t) == spec_rewards(l, c, t));
        } else {
            law_rewards_year_by_year(l, b, t);
            law_rewards_year_by_year(lb, c, t);
            law_rewards_year_by_year(l, c, t);
            lemma_progressive_is_accrued(p, base, t, start, a_s, b_s, zero);
            lemma_progressive_is_accrued(p, base, t, start, b_s, c_s, zero);
            lemma_progressive_is_accrued(p, base, t, start, a_s, c_s, zero);
            let m = l.principal_amount.amount * (base.atomics + t.max_percentage_increase.atomics);
            assert((p.atomics as int) * (base.atomics + t.max_percentage_increase.atomics) == m * dd)
                by (nonlinear_arith)
                requires
                    p.atomics == l.principal_amount.amount * dd,
                    m == l.principal_amount.amount * (base.atomics + t.max_percentage_increase.atomics),
            ;
            assert(0 <= m) by (nonlinear_arith)
                requires
                    m == l.principal_amount.amount * (base.atomics + t.max_percentage_increase.atomics),
            ;
            vstd::arithmetic::div_mod::lemma_div_by_multiple(m, dd);
            let slack = m / dd + 2;
            vstd::arithmetic::div_mod::lemma_fundamental_div_mod(slack, dd);
            lemma_accrued_split(p, base, t, start, a_s, b_s, c_s);
            let x1 = accrued_atomics(p, base, t, start, a_s, b_s);
            let x2 = accrued_atomics(p, base, t, start, b_s, c_s);
            let x = accrued_atomics(p, base, t, start, a_s, c_s);
            vstd::arithmetic::div_mod::lemma_fundamental_div_mod(x1, dd);
            vstd::arithmetic::div_mod::lemma_fundamental_div_mod(x2, dd);
            vstd::arithmetic::div_mod::lemma_fundamental_div_mod(x, dd);
        }
    }
}

// ---------------------------------------------------------------------------
// Larger deposits and rates
// ---------------------------------------------------------------------------

proof fn lemma_piece_monotone(p1: int, a1: int, p2: int, a2: int, d: int)
    requires
        0 <= p1 <= p2,
        0 <= a1 <= a2,
    ensures
        piece_atomics(p1, a1, d) <= piece_atomics(p2, a2, d),
{
    let dd = DECIMAL_FRACTIONAL as int;
    let f = spec_year_fraction(d).atomics as int;
    assert(p1 * a1 <= p2 * a2 && 0 <= p1 * a1) by (nonlinear_arith)
        requires
            0 <= p1 <= p2,
            0 <= a1 <= a2,
    ;
    vstd::arithmetic::div_mod::lemma_div_is_ordered(p1 * a1, p2 * a2, dd);
    vstd::arithmetic::div_mod::lemma_div_is_ordered(0, p1 * a1, dd);
    let w1 = p1 * a1 / dd;
    let w2 = p2 * a2 / dd;
    assert(w1 * f <= w2 * f) by (nonlinear_arith)
        requires
            0 <= w1 <= w2,
            0 <= f,
    ;
    vstd::arithmetic::div_mod::lemma_div_is_ordered(w1 * f, w2 * f, dd);
}

proof fn lemma_accrued_monotone(
    p1: Decimal,
    b1: Decimal,
    p2: Decimal,
    b2: Decimal,
    t: TierConfig,
    start: int,
    from: int,
    to: int,
    acc: Decimal,
)
    requires
        p1.atomics <= p2.atomics,
        b1.atomics <= b2.atomics,
        spec_progressive_from(p2, b2, t, start, from, to, acc) is Some,
    ensures
        accrued_atomics(p1, b1, t, start, from, to) <= accrued_atomics(p2, b2, t, start, from, to),
    decreases to - from,
{
    if from < to && from >= start {
        let year = (from - start) / (SECONDS_PER_YEAR as int);
        let year_end = spec_year_end(start, from);
        lemma_year_end_after(start, from);
        let end = if year_end < to {
            year_end
        } else {
            to
        };
        let apr2 = spec_apr_for_year(b2, t, year).unwrap();
        let apr1 = spec_apr_for_year(b1, t, year).unwrap();
        lemma_piece_monotone(p1.atomics as int, apr1.atomics as int, p2.atomics as int, apr2.atomics as int, end - from);
        let r = spec_period_rewards(p2, apr2, end - from).unwrap();
        let acc2 = spec_decimal_add(acc, r).unwrap();
        lemma_accrued_monotone(p1, b1, p2, b2, t, start, end, to, acc2);
    }
}

/// A larger deposit or a higher APR never earns less: of two lockups that
/// differ only in their principal and APR, the one with the larger of both
/// has at least as much pending.
pub proof fn law_rewards_monotone_in_deposit(
    l: Lockup,
    amount: u128,
    apr: Decimal,
    now: Timestamp,
    t: TierConfig,
)
    requires
        l.principal_amount.amount <= amount,
        l.annual_percentage_rate.atomics <= apr.atomics,
        spec_rewards(l, now, t) is Some,
        spec_rewards(
            Lockup {
                principal_amount: Coin { amount, ..l.principal_amount },
                annual_percentage_rate: apr,
                ..l
            },
            now,
            t,
        ) is Some,
    ensures
        spec_rewards(l, now, t).unwrap() <= spec_rewards(
            Lockup {
                principal_amount: Coin { amount, ..l.principal_amount },
                annual_percentage_rate: apr,
                ..l
            },
            now,
            t,
        ).unwrap(),
{
    let l2 = Lockup { principal_amount: Coin { amount, ..l.principal_amount }, annual_percentage_rate: apr, ..l };
    let n = NANOS_PER_SECOND as int;
    if l.annual_percentage_rate.atomics == 0 || now.nanos <= l.last_claim_time.nanos {
    } else {
        let start = (l.start_time.nanos / NANOS_PER_SECOND) as int;
        let last = (l.last_claim_time.nanos / NANOS_PER_SECOND) as int;
        let current = (now.nanos / NANOS_PER_SECOND) as int;
        vstd::arithmetic::div_mod::lemma_div_is_ordered(l.last_claim_time.nanos as int, now.nanos as int, n);
        let p1 = spec_decimal_from_integer(l.principal_amount.amount as int).unwrap();
        let p2 = spec_decimal_from_integer(amount as int).unwrap();
        let zero = Decimal { atomics: 0 };
        if current == last {
            let a1 = spec_apr_for_year(l.annual_percentage_rate, t, (last - start) / (SECONDS_PER_YEAR as int)).unwrap();
            let w1 = spec_decimal_mul(p1, a1).unwrap();
            assert(spec_year_fraction(0).atomics == 0);
            assert(spec_decimal_mul(w1, spec_year_fraction(0)) == Some(zero));
        } else {
            law_rewards_year_by_year(l, now, t);
            law_rewards_year_by_year(l2, now, t);
            assert(p1.atomics <= p2.atomics) by (nonlinear_arith)
                requires
                    p1.atomics == l.principal_amount.amount * DECIMAL_FRACTIONAL,
                    p2.atomics == amount * DECIMAL_FRACTIONAL,
                    l.principal_amount.amount <= amount,
            ;
            lemma_progressive_is_accrued(p1, l.annual_percentage_rate, t, start, last, current, zero);
            lemma_progressive_is_accrued(p2, apr, t, start, last, current, zero);
            lemma_accrued_monotone(p1, l.annual_percentage_rate, p2, apr, t, start, last, current, zero);
            vstd::arithmetic::div_mod::lemma_div_is_ordered(
                accrued_atomics(p1, l.annual_percentage_rate, t, start, last, current),
                accrued_atomics(p2, apr, t, start, last, current),
                DECIMAL_FRACTIONAL as int,
            );
        }
    }
}

/// The configuration never changes: over any run of executions, each by
/// some sender with some outcome, every state holds the configuration of the
/// first (the one `instantiate` made, which `GetConfig` answers).
pub proof fn law_config_fixed(
    states: Seq<State>,
    senders: Seq<String>,
    outcomes: Seq<Option<Result<Response, ContractError>>>,
)
    requires
        states.len() == senders.len() + 1,
        outcomes.len() == senders.len(),
        forall|i: int|
            0 <= i < senders.len() ==> #[trigger] execution_frame(states[i], states[i + 1], senders[i], outcomes[i]),
    ensures
        forall|i: int| 0 <= i < states.len() ==> #[trigger] states[i].config == states[0].config,
    decreases senders.len(),
{
    if senders.len() > 0 {
        let k = senders.len() - 1;
        law_config_fixed(states.drop_last(), senders.drop_last(), outcomes.drop_last());
        assert(execution_frame(states[k], states[k + 1], senders[k], outcomes[k]));
        let prefix = states.drop_last();
        assert(prefix[0] == states[0]);
        assert(prefix[k] == states[k]);
        assert(prefix[k].config == prefix[0].config);
        assert forall|i: int| 0 <= i < states.len() implies #[trigger] states[i].config == states[0].config by {
            if i < states.len() - 1 {
                assert(prefix[i] == states[i]);
                assert(prefix[i].config == prefix[0].config);
            }
        }
    }
}

// ---------------------------------------------------------------------------
// The deposit limit, the administrators and the reward pool
// ---------------------------------------------------------------------------

/// A successful lock never leaves the sender's principal above the largest
/// deposit accepted (`tier_4_limit`), whether it creates or upgrades the
/// lockup.
pub proof fn law_lock_within_limit(
    s0: State,
    s1: State,
    env: Env,
    info: MessageInfo,
    r: Option<Result<Response, ContractError>>,
)
    requires
        lock_post(s0, s1, env, info, r),
        r matches Some(Ok(_)),
    ensures
        spec_find_lockup(s1.lockups@, info.sender@) matches Some(i)
            && s1.lockups@[i].principal_amount.amount <= s0.config.tier_config.tier_4_limit,
{
    law_lookup_after_lock(s0, s1, env, info, r);
}

/// Adding to a lockup beyond the deposit limit is refused: when the sender
/// already has a lockup whose unlock second has not passed, and the funds
/// are otherwise acceptable (one coin of the denomination within the tier
/// bounds, covered by the reward pool), a lock whose amount and the existing
/// principal add up to more than `tier_4_limit` answers `DepositExceedsLimit`
/// and leaves every lockup as it was.
pub proof fn law_upgrade_beyond_limit_refused(
    s0: State,
    s1: State,
    env: Env,
    info: MessageInfo,
    r: Option<Result<Response, ContractError>>,
    i: int,
)
    requires
        lock_post(s0, s1, env, info, r),
        execution_frame(s0, s1, info.sender, r),
        owners_distinct(s0.lockups@),
        info.funds@.len() == 1,
        info.funds@[0].denom@ == s0.config.denom@,
        s0.config.tier_config.tier_1_min <= info.funds@[0].amount <= s0.config.tier_config.tier_4_limit,
        info.funds@[0].amount > 0,
        crate::contract::spec_sufficient_reward_funds(s0, env.block_time, info.funds@[0].amount) == Some(
            Ok::<(), ContractError>(()),
        ),
        0 <= i < s0.lockups@.len(),
        s0.lockups@[i].owner@ == info.sender@,
        env.block_time.nanos / NANOS_PER_SECOND <= s0.lockups@[i].unlock_time.nanos / NANOS_PER_SECOND,
        info.funds@[0].amount + s0.lockups@[i].principal_amount.amount <= u128::MAX,
        info.funds@[0].amount + s0.lockups@[i].principal_amount.amount > s0.config.tier_config.tier_4_limit,
    ensures
        r == Some(Err::<Response, ContractError>(ContractError::DepositExceedsLimit {  })),
        s1.lockups@ == s0.lockups@,
{
    lemma_find_lockup(s0.lockups@, info.sender@);
    let k = spec_find_lockup(s0.lockups@, info.sender@).unwrap();
    assert(s0.lockups@[k].owner@ == s0.lockups@[i].owner@);
    assert(k == i);
}

/// Every administrator may deposit rewards, whatever their place in the
/// list: a deposit with funds by a sender equal to any of the configured
/// administrators is accepted.
pub proof fn law_any_admin_deposits(s: State, info: MessageInfo, r: Result<Response, ContractError>, j: int)
    requires
        crate::contract::deposit_post(s, info, r),
        0 <= j < s.config.admins@.len(),
        s.config.admins@[j]@ == info.sender@,
        info.funds@.len() > 0,
    ensures
        r is Ok,
{
}

/// Who may deposit: a deposit is accepted exactly when the sender equals
/// one of the configured administrators and sends funds; it is refused as
/// unauthorized exactly when the sender is none of them, and for want of
/// funds exactly when an administrator sends none.
pub proof fn law_deposit_unauthorized_iff_stranger(s: State, info: MessageInfo, r: Result<Response, ContractError>)
    requires
        crate::contract::deposit_post(s, info, r),
    ensures
        (r matches Err(ContractError::Unauthorized {  })) <==> forall|j: int|
            0 <= j < s.config.admins@.len() ==> s.config.admins@[j]@ != info.sender@,
        (r is Ok) <==> (exists|j: int| 0 <= j < s.config.admins@.len() && s.config.admins@[j]@ == info.sender@)
            && info.funds@.len() > 0,
        (r matches Err(ContractError::NoFundsForDeposit {  })) <==> (exists|j: int|
            0 <= j < s.config.admins@.len() && s.config.admins@[j]@ == info.sender@) && info.funds@.len() == 0,
{
}

/// A lock is refused for the deposit limit only when it is over it: either
/// the coin sent alone exceeds `tier_4_limit`, or the sender already has a
/// lockup and the coin and that lockup's principal together exceed it.
pub proof fn law_limit_refusal_only_over_limit(s: State, env: Env, info: MessageInfo)
    requires
        spec_lock(s, env, info) == Some(Err::<(Lockup, u128), ContractError>(ContractError::DepositExceedsLimit {  })),
    ensures
        info.funds@[0].amount > s.config.tier_config.tier_4_limit || (spec_find_lockup(s.lockups@, info.sender@)
            matches Some(i) && info.funds@[0].amount + s.lockups@[i].principal_amount.amount
            > s.config.tier_config.tier_4_limit),
{
}

/// The coin-availability answer compares the funds available for rewards
/// (what `GetDepositedRewards` answers) with the first-year rewards of all
/// lockups (what `GetAllRewards` answers): it is true exactly when the first
/// is at least the second.  When it is true and a year of rewards is owed,
/// the balance covers all principals, all pending rewards and that year.
pub proof fn law_coin_availability(s: State, now: Timestamp)
    requires
        crate::contract::spec_coin_availability(s, now) is Some,
    ensures
        spec_available_rewards(s, now) is Some,
        crate::contract::spec_rewards_per_year(s) is Some,
        crate::contract::spec_coin_availability(s, now).unwrap() == (spec_available_rewards(s, now).unwrap()
            >= crate::contract::spec_rewards_per_year(s).unwrap()),
        crate::contract::spec_coin_availability(s, now).unwrap() && crate::contract::spec_rewards_per_year(
            s,
        ).unwrap() > 0 ==> s.balance >= crate::contract::principal_sum(s.lockups@) + crate::contract::pending_sum(
            s.lockups@,
            now,
            s.config.tier_config,
        ).unwrap() + crate::contract::spec_rewards_per_year(s).unwrap(),
{
    law_available_within_balance(s, now);
}

proof fn lemma_yearly_sum_nonneg(ls: Seq<Lockup>, t: TierConfig)
    requires
        crate::contract::yearly_sum(ls, t) is Some,
    ensures
        crate::contract::yearly_sum(ls, t).unwrap() >= 0,
    decreases ls.len(),
{
    if ls.len() > 0 {
        lemma_yearly_sum_nonneg(ls.drop_last(), t);
    }
}

/// The yearly rewards of all lockups (`GetAllRewards`) are additive: with
/// one more lockup stored, they grow by exactly that lockup's first-year
/// rewards; with none stored, they are zero.
pub proof fn law_yearly_rewards_additive(s: State, s2: State, l: Lockup)
    requires
        s2.config.tier_config == s.config.tier_config,
        s2.lockups@ == s.lockups@.push(l),
        crate::contract::spec_rewards_per_year(s2) is Some,
    ensures
        s.lockups@.len() == 0 ==> crate::contract::spec_rewards_per_year(s) == Some(0u128),
        crate::contract::spec_rewards_per_year(s) is Some,
        spec_yearly_rewards(l, s.config.tier_config) is Some,
        crate::contract::spec_rewards_per_year(s2).unwrap() == crate::contract::spec_rewards_per_year(s).unwrap()
            + spec_yearly_rewards(l, s.config.tier_config).unwrap(),
{
    let ls2 = s2.lockups@;
    assert(ls2.drop_last() == s.lockups@);
    assert(ls2.last() == l);
    assert(crate::contract::yearly_sum(ls2, s.config.tier_config) == crate::contract::yearly_sum(
        ls2,
        s2.config.tier_config,
    ));
    let t = s.config.tier_config;
    let y2 = crate::contract::yearly_sum(ls2, t).unwrap();
    let y = crate::contract::yearly_sum(s.lockups@, t).unwrap();
    let r = spec_yearly_rewards(l, t).unwrap();
    assert(y2 == y + r);
    lemma_yearly_sum_nonneg(s.lockups@, t);
    assert(crate::contract::spec_rewards_per_year(s2) == Some(y2 as u128));
    assert(crate::contract::spec_rewards_per_year(s) == Some(y as u128));
    if s.lockups@.len() == 0 {
        assert(crate::contract::yearly_sum(s.lockups@, s.config.tier_config) == Some(0int));
    }
}

proof fn lemma_full_year_rewards(amount: u128, apr: Decimal)
    requires
        spec_decimal_from_integer(amount as int) is Some,
        spec_period_rewards(
            spec_decimal_from_integer(amount as int).unwrap(),
            apr,
            SECONDS_PER_YEAR as int,
        ) is Some,
    ensures
        spec_decimal_floor(
            spec_period_rewards(spec_decimal_from_integer(amount as int).unwrap(), apr, SECONDS_PER_YEAR as int).unwrap(),
        ) == amount * apr.atomics / (DECIMAL_FRACTIONAL as int),
{
    let d = DECIMAL_FRACTIONAL as int;
    let a = amount as int;
    let p = spec_decimal_from_integer(a).unwrap();
    assert(p.atomics == a * d);
    assert((a * d) * apr.atomics == (a * apr.atomics) * d) by (nonlinear_arith);
    vstd::arithmetic::div_mod::lemma_div_by_multiple(a * apr.atomics, d);
    let w = spec_decimal_mul(p, apr).unwrap();
    assert(w.atomics == a * apr.atomics);
    assert(spec_year_fraction(SECONDS_PER_YEAR as int).atomics == d);
    vstd::arithmetic::div_mod::lemma_div_by_multiple(a * apr.atomics, d);
    assert(w.atomics * d / d == w.atomics);
}

/// The reward-pool check of a deposit of `amount`: it passes exactly when
/// the funds available for rewards, less the deposit (or zero), cover a
/// month of the first-year rewards of all existing lockups plus a month of
/// the deposit's whole-unit rewards for a year at its tier's APR raised by
/// the maximum increase (each month a twelfth, rounded down).
pub proof fn law_reward_funds_check(s: State, now: Timestamp, amount: u128)
    requires
        crate::contract::spec_sufficient_reward_funds(s, now, amount) is Some,
        spec_decimal_from_integer(amount as int) is Some,
    ensures
        spec_available_rewards(s, now) is Some,
        crate::contract::spec_rewards_per_year(s) is Some,
        ({
            let t = s.config.tier_config;
            let available = spec_available_rewards(s, now).unwrap() as int;
            let after = if available >= amount {
                available - amount
            } else {
                0
            };
            let required = crate::contract::spec_rewards_per_year(s).unwrap() / 12 + amount * (
            spec_apr_for_amount(amount, t).atomics + t.max_percentage_increase.atomics) / (
            DECIMAL_FRACTIONAL as int) / 12;
            (crate::contract::spec_sufficient_reward_funds(s, now, amount).unwrap() is Ok) <==> after
                >= required
        }),
{
    let t = s.config.tier_config;
    let max_apr = spec_decimal_add(spec_apr_for_amount(amount, t), t.max_percentage_increase).unwrap();
    lemma_full_year_rewards(amount, max_apr);
}

/// A lock succeeds only when the reward pool covers it: the funds available
/// for rewards less the deposit (or zero) are at least a month of the
/// first-year rewards of all existing lockups plus a month of the deposit's
/// rewards for a year at its tier's APR raised by the maximum increase.
pub proof fn law_lock_needs_reward_funds(s: State, env: Env, info: MessageInfo)
    requires
        spec_lock(s, env, info) matches Some(Ok(_)),
    ensures
        ({
            let t = s.config.tier_config;
            let amount = info.funds@[0].amount;
            let available = spec_available_rewards(s, env.block_time).unwrap() as int;
            let after = if available >= amount {
                available - amount
            } else {
                0
            };
            &&& spec_available_rewards(s, env.block_time) is Some
            &&& crate::contract::spec_rewards_per_year(s) is Some
            &&& after >= crate::contract::spec_rewards_per_year(s).unwrap() / 12 + amount * (spec_apr_for_amount(
                amount,
                t,
            ).atomics + t.max_percentage_increase.atomics) / (DECIMAL_FRACTIONAL as int) / 12
        }),
{
    let amount = info.funds@[0].amount;
    law_reward_funds_check(s, env.block_time, amount);
}

} // verus!
