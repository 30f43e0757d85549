//! The contract: instantiation, the four executions and the queries, each a
//! function of the stored values, the block time and the message.

use vstd::prelude::*;

use crate::error::{ContractError, StdError};
use crate::math::{
    decimal_checked_add, decimal_from_integer, spec_decimal_add, spec_decimal_floor,
    spec_decimal_from_integer, uint128_to_string, decimal_digits, decimal_text, Decimal, Timestamp,
    NANOS_PER_SECOND,
};
use crate::msg::{
    attributes_view, messages_view, send_view, AllLockupsResponse, BankMsg, Env, ExecuteMsg,
    InstantiateMsg, LockupInfo, MessageInfo, QueryMsg, QueryResponse, Response,
};
use crate::rewards::{
    calculate_period_rewards, calculate_rewards, decimal_to_uint128, get_apr_for_amount,
    get_tier_for_amount, spec_apr_for_amount, spec_period_rewards, spec_rewards,
    spec_tier_for_amount, SECONDS_PER_YEAR,
};
use crate::state::{find_lockup, lemma_find_lockup, owners_distinct, spec_find_lockup, Coin, Config, Lockup, State};

verus! {

// ---------------------------------------------------------------------------
// Sums over all lockups
// ---------------------------------------------------------------------------

/// The sum of the principals of `lockups`.
pub open spec fn principal_sum(lockups: Seq<Lockup>) -> int
    decreases lockups.len(),
{
    if lockups.len() == 0 {
        0
    } else {
        principal_sum(lockups.drop_last()) + lockups.last().principal_amount.amount
    }
}

/// The sum of the rewards pending on `lockups` at `now`; `None` when one of
/// them cannot be computed.
pub open spec fn pending_sum(lockups: Seq<Lockup>, now: Timestamp, t: crate::state::TierConfig) -> Option<int>
    decreases lockups.len(),
{
    if lockups.len() == 0 {
        Some(0)
    } else {
        match pending_sum(lockups.drop_last(), now, t) {
            None => None,
            Some(s) => match spec_rewards(lockups.last(), now, t) {
                None => None,
                Some(r) => Some(s + r),
            },
        }
    }
}

/// The rewards a lockup earns in its first year: those accrued from its
/// start to one year after the start.
pub open spec fn spec_yearly_rewards(l: Lockup, t: crate::state::TierConfig) -> Option<u128> {
    let start = l.start_time.nanos / NANOS_PER_SECOND;
    let year_later = (start + SECONDS_PER_YEAR) * NANOS_PER_SECOND;
    if year_later > u64::MAX {
        None
    } else {
        spec_rewards(
            Lockup { last_claim_time: l.start_time, ..l },
            Timestamp { nanos: year_later as u64 },
            t,
        )
    }
}

/// The sum of the first-year rewards of `lockups`; `None` when one of them
/// cannot be computed.
pub open spec fn yearly_sum(lockups: Seq<Lockup>, t: crate::state::TierConfig) -> Option<int>
    decreases lockups.len(),
{
    if lockups.len() == 0 {
        Some(0)
    } else {
        match yearly_sum(lockups.drop_last(), t) {
            None => None,
            Some(s) => match spec_yearly_rewards(lockups.last(), t) {
                None => None,
                Some(r) => Some(s + r),
            },
        }
    }
}

/// The funds available for rewards at `now`: the balance less all principals
/// and all pending rewards, or zero when those exceed the balance; `None`
/// when the sums overflow or a reward cannot be computed.
pub open spec fn spec_available_rewards(s: State, now: Timestamp) -> Option<u128> {
    match pending_sum(s.lockups@, now, s.config.tier_config) {
        None => None,
        Some(pending) => {
            let committed = principal_sum(s.lockups@) + pending;
            if committed > u128::MAX {
                None
            } else if s.balance >= committed {
                Some((s.balance - committed) as u128)
            } else {
                Some(0)
            }
        },
    }
}

/// The first-year rewards of all lockups; `None` when the sum overflows or
/// one of them cannot be computed.
pub open spec fn spec_rewards_per_year(s: State) -> Option<u128> {
    match yearly_sum(s.lockups@, s.config.tier_config) {
        None => None,
        Some(y) => if y > u128::MAX {
            None
        } else {
            Some(y as u128)
        },
    }
}

proof fn lemma_take_drop_last<A>(s: Seq<A>, i: int)
    requires
        0 <= i < s.len(),
    ensures
        s.take(i + 1).drop_last() == s.take(i),
        s.take(i + 1).last() == s[i],
{
    assert(s.take(i + 1).drop_last() =~= s.take(i));
}

/// The principal sum grows with the prefix of lockups it is taken over.
pub proof fn lemma_principal_sum_prefix(ls: Seq<Lockup>, i: int, j: int)
    requires
        0 <= i <= j <= ls.len(),
    ensures
        0 <= principal_sum(ls.take(i)) <= principal_sum(ls.take(j)),
    decreases j,
{
    if i < j {
        lemma_take_drop_last(ls, j - 1);
        lemma_principal_sum_prefix(ls, i, j - 1);
    } else if j > 0 {
        lemma_take_drop_last(ls, j - 1);
        lemma_principal_sum_prefix(ls, 0, j - 1);
    } else {
        assert(ls.take(0).len() == 0);
    }
}

/// Where the pending sum over a prefix is defined, it is over every shorter
/// prefix too, and is no larger there.
pub proof fn lemma_pending_sum_prefix(ls: Seq<Lockup>, i: int, j: int, now: Timestamp, t: crate::state::TierConfig)
    requires
        0 <= i <= j <= ls.len(),
        pending_sum(ls.take(j), now, t) is Some,
    ensures
        pending_sum(ls.take(i), now, t) is Some,
        0 <= pending_sum(ls.take(i), now, t).unwrap() <= pending_sum(ls.take(j), now, t).unwrap(),
    decreases j,
{
    if j > 0 {
        lemma_take_drop_last(ls, j - 1);
        if i < j {
            lemma_pending_sum_prefix(ls, i, j - 1, now, t);
        } else {
            lemma_pending_sum_prefix(ls, 0, j - 1, now, t);
        }
    } else {
        assert(ls.take(0).len() == 0);
    }
}

/// Where the first-year sum over a prefix is defined, it is over every
/// shorter prefix too, and is no larger there.
pub proof fn lemma_yearly_sum_prefix(ls: Seq<Lockup>, i: int, j: int, t: crate::state::TierConfig)
    requires
        0 <= i <= j <= ls.len(),
        yearly_sum(ls.take(j), t) is Some,
    ensures
        yearly_sum(ls.take(i), t) is Some,
        0 <= yearly_sum(ls.take(i), t).unwrap() <= yearly_sum(ls.take(j), t).unwrap(),
    decreases j,
{
    if j > 0 {
        lemma_take_drop_last(ls, j - 1);
        if i < j {
            lemma_yearly_sum_prefix(ls, i, j - 1, t);
        } else {
            lemma_yearly_sum_prefix(ls, 0, j - 1, t);
        }
    } else {
        assert(ls.take(0).len() == 0);
    }
}

/// The funds available for rewards at `now`, in the configured denomination.
pub fn query_available_rewards(state: &State, now: Timestamp) -> (r: Option<Coin>)
    ensures
        match spec_available_rewards(*state, now) {
            Some(a) => r == Some(Coin { denom: state.config.denom, amount: a }),
            None => r is None,
        },
{
    let ghost ls = state.lockups@;
    let ghost t = state.config.tier_config;
    let mut total_principal: u128 = 0;
    let mut total_pending: u128 = 0;
    let mut i: usize = 0;
    assert(ls.take(0).len() == 0);
    while i < state.lockups.len()
        invariant
            ls == state.lockups@,
            t == state.config.tier_config,
            i <= ls.len(),
            total_principal == principal_sum(ls.take(i as int)),
            pending_sum(ls.take(i as int), now, t) == Some(total_pending as int),
        decreases ls.len() - i,
    {
        proof {
            lemma_take_drop_last(ls, i as int);
        }
        let pending = match calculate_rewards(
            &state.lockups[i],
            now,
            &state.config.denom,
            &state.config.tier_config,
        ) {
            Some(c) => c,
            None => {
                proof {
                    if pending_sum(ls, now, t) is Some {
                        assert(ls.take(ls.len() as int) == ls);
                        lemma_pending_sum_prefix(ls, i + 1, ls.len() as int, now, t);
                    }
                }
                return None;
            },
        };
        match total_principal.checked_add(state.lockups[i].principal_amount.amount) {
            Some(p) => total_principal = p,
            None => {
                proof {
                    assert(ls.take(ls.len() as int) == ls);
                    lemma_principal_sum_prefix(ls, i + 1, ls.len() as int);
                    if pending_sum(ls, now, t) is Some {
                        lemma_pending_sum_prefix(ls, 0, ls.len() as int, now, t);
                    }
                }
                return None;
            },
        }
        match total_pending.checked_add(pending.amount) {
            Some(p) => total_pending = p,
            None => {
                proof {
                    assert(ls.take(ls.len() as int) == ls);
                    lemma_principal_sum_prefix(ls, 0, ls.len() as int);
                    if pending_sum(ls, now, t) is Some {
                        lemma_pending_sum_prefix(ls, i + 1, ls.len() as int, now, t);
                    }
                }
                return None;
            },
        }
        i = i + 1;
    }
    assert(ls.take(ls.len() as int) == ls);
    let committed = match total_principal.checked_add(total_pending) {
        Some(c) => c,
        None => return None,
    };
    let available = if state.balance >= committed {
        state.balance - committed
    } else {
        0
    };
    Some(Coin::new(available, &state.config.denom))
}

/// The rewards `lockup` earns in its first year.
pub fn calculate_yearly_rewards_for_lockup(lockup: &Lockup, tier_config: &crate::state::TierConfig) -> (r: Option<u128>)
    ensures
        r == spec_yearly_rewards(*lockup, *tier_config),
{
    let start_time = lockup.start_time;
    let start_seconds = start_time.seconds();
    let one_year_later = match Timestamp::checked_from_seconds(start_seconds + SECONDS_PER_YEAR) {
        Some(t) => t,
        None => return None,
    };
    let simulated_lockup = Lockup {
        owner: lockup.owner.clone(),
        principal_amount: lockup.principal_amount.clone(),
        annual_percentage_rate: lockup.annual_percentage_rate,
        start_time: lockup.start_time,
        unlock_time: lockup.unlock_time,
        last_claim_time: start_time,
    };
    assert(simulated_lockup == (Lockup { last_claim_time: lockup.start_time, ..*lockup }));
    match calculate_rewards(&simulated_lockup, one_year_later, &lockup.principal_amount.denom, tier_config) {
        Some(c) => Some(c.amount),
        None => None,
    }
}

/// The first-year rewards of all lockups, in the configured denomination.
pub fn query_rewards_per_year(state: &State) -> (r: Option<Coin>)
    ensures
        match spec_rewards_per_year(*state) {
            Some(a) => r == Some(Coin { denom: state.config.denom, amount: a }),
            None => r is None,
        },
{
    let ghost ls = state.lockups@;
    let ghost t = state.config.tier_config;
    let mut total: u128 = 0;
    let mut i: usize = 0;
    assert(ls.take(0).len() == 0);
    while i < state.lockups.len()
        invariant
            ls == state.lockups@,
            t == state.config.tier_config,
            i <= ls.len(),
            yearly_sum(ls.take(i as int), t) == Some(total as int),
        decreases ls.len() - i,
    {
        proof {
            lemma_take_drop_last(ls, i as int);
        }
        let yearly = match calculate_yearly_rewards_for_lockup(&state.lockups[i], &state.config.tier_config) {
            Some(y) => y,
            None => {
                proof {
                    if yearly_sum(ls, t) is Some {
                        assert(ls.take(ls.len() as int) == ls);
                        lemma_yearly_sum_prefix(ls, i + 1, ls.len() as int, t);
                    }
                }
                return None;
            },
        };
        match total.checked_add(yearly) {
            Some(s) => total = s,
            None => {
                proof {
                    if yearly_sum(ls, t) is Some {
                        assert(ls.take(ls.len() as int) == ls);
                        lemma_yearly_sum_prefix(ls, i + 1, ls.len() as int, t);
                    }
                }
                return None;
            },
        }
        i = i + 1;
    }
    assert(ls.take(ls.len() as int) == ls);
    Some(Coin::new(total, &state.config.denom))
}

/// The number of lockups and the sum of their principals, in the configured
/// denomination.
pub fn query_sum_lockups_and_deposits(state: &State) -> (r: Option<(u128, Coin)>)
    ensures
        principal_sum(state.lockups@) <= u128::MAX ==> r == Some(
            (
                state.lockups@.len() as u128,
                Coin { denom: state.config.denom, amount: principal_sum(state.lockups@) as u128 },
            ),
        ),
        principal_sum(state.lockups@) > u128::MAX ==> r is None,
{
    let ghost ls = state.lockups@;
    let mut count: u128 = 0;
    let mut total: u128 = 0;
    let mut i: usize = 0;
    assert(ls.take(0).len() == 0);
    while i < state.lockups.len()
        invariant
            ls == state.lockups@,
            i <= ls.len(),
            count == i,
            total == principal_sum(ls.take(i as int)),
        decreases ls.len() - i,
    {
        proof {
            lemma_take_drop_last(ls, i as int);
        }
        match total.checked_add(state.lockups[i].principal_amount.amount) {
            Some(t) => total = t,
            None => {
                proof {
                    assert(ls.take(ls.len() as int) == ls);
                    lemma_principal_sum_prefix(ls, i + 1, ls.len() as int);
                }
                return None;
            },
        }
        count = count + 1;
        i = i + 1;
    }
    assert(ls.take(ls.len() as int) == ls);
    Some((count, Coin::new(total, &state.config.denom)))
}

/// How the list of all lockups shows one lockup.
pub open spec fn spec_lockup_info(l: Lockup, t: crate::state::TierConfig) -> LockupInfo {
    LockupInfo {
        address: l.owner,
        start_time: l.start_time,
        principal_amount: l.principal_amount.amount,
        annual_percentage_rate: l.annual_percentage_rate,
        tier: spec_tier_for_amount(l.principal_amount.amount, t),
    }
}

/// All lockups with their tiers, in the stored order.
pub fn query_all_lockups(state: &State) -> (r: AllLockupsResponse)
    ensures
        r.lockups@.len() == state.lockups@.len(),
        forall|i: int|
            0 <= i < state.lockups@.len() ==> r.lockups@[i] == spec_lockup_info(
                state.lockups@[i],
                state.config.tier_config,
            ),
{
    let mut lockups: Vec<LockupInfo> = Vec::new();
    let mut i: usize = 0;
    while i < state.lockups.len()
        invariant
            i <= state.lockups@.len(),
            lockups@.len() == i,
            forall|j: int|
                0 <= j < i ==> lockups@[j] == spec_lockup_info(state.lockups@[j], state.config.tier_config),
        decreases state.lockups@.len() - i,
    {
        let lockup = &state.lockups[i];
        let tier = get_tier_for_amount(lockup.principal_amount.amount, &state.config.tier_config);
        lockups.push(
            LockupInfo {
                address: lockup.owner.clone(),
                start_time: lockup.start_time,
                principal_amount: lockup.principal_amount.amount,
                annual_percentage_rate: lockup.annual_percentage_rate,
                tier,
            },
        );
        i = i + 1;
    }
    AllLockupsResponse { lockups }
}

/// Whether the funds available for rewards cover the first-year rewards of
/// all lockups; `None` when either cannot be computed.
pub open spec fn spec_coin_availability(s: State, now: Timestamp) -> Option<bool> {
    match spec_available_rewards(s, now) {
        None => None,
        Some(available) => match spec_rewards_per_year(s) {
            None => None,
            Some(required) => Some(available >= required),
        },
    }
}

/// Whether the funds available for rewards cover a year of rewards.
pub fn check_coin_availability(state: &State, now: Timestamp) -> (r: Option<bool>)
    ensures
        r == spec_coin_availability(*state, now),
{
    let coin = match query_available_rewards(state, now) {
        Some(c) => c,
        None => return None,
    };
    let required = match query_rewards_per_year(state) {
        Some(c) => c,
        None => return None,
    };
    Some(coin.amount >= required.amount)
}

/// Whether the reward pool can take on a new deposit of `amount`: after
/// setting the deposit aside, the available funds must cover a month of the
/// first-year rewards of all lockups plus a month of the deposit's rewards at
/// its tier's APR raised by the maximum increase.  `None` when the arithmetic
/// overflows.
pub open spec fn spec_sufficient_reward_funds(s: State, now: Timestamp, amount: u128) -> Option<
    Result<(), ContractError>,
> {
    let t = s.config.tier_config;
    match spec_available_rewards(s, now) {
        None => None,
        Some(available) => match spec_rewards_per_year(s) {
            None => None,
            Some(required_yearly) => match spec_decimal_add(
                spec_apr_for_amount(amount, t),
                t.max_percentage_increase,
            ) {
                None => None,
                Some(max_apr) => match spec_decimal_from_integer(amount as int) {
                    None => Some(Err(ContractError::InvalidPrincipalAmount {  })),
                    Some(p) => match spec_period_rewards(p, max_apr, SECONDS_PER_YEAR as int) {
                        None => None,
                        Some(additional_yearly) => {
                            let monthly = required_yearly / 12 + spec_decimal_floor(additional_yearly)
                                / 12;
                            let after_principal = if available >= amount {
                                available - amount
                            } else {
                                0
                            };
                            if after_principal >= monthly {
                                Some(Ok(()))
                            } else {
                                Some(
                                    Err(
                                        ContractError::InsufficientRewardFunds {
                                            available_amount: after_principal as u128,
                                            available_denom: s.config.denom,
                                            required_amount: monthly as u128,
                                            required_denom: s.config.denom,
                                        },
                                    ),
                                )
                            }
                        },
                    },
                },
            },
        },
    }
}

/// Checks that the reward pool can take on a new deposit of
/// `new_principal_amount`.
pub fn check_sufficient_reward_funds(state: &State, now: Timestamp, new_principal_amount: u128) -> (r:
    Option<Result<(), ContractError>>)
    ensures
        r == spec_sufficient_reward_funds(*state, now, new_principal_amount),
{
    let available_rewards = match query_available_rewards(state, now) {
        Some(c) => c,
        None => return None,
    };
    let current_required_yearly = match query_rewards_per_year(state) {
        Some(c) => c,
        None => return None,
    };
    let new_apr = get_apr_for_amount(new_principal_amount, &state.config.tier_config);
    let max_apr = match decimal_checked_add(new_apr, state.config.tier_config.max_percentage_increase) {
        Some(d) => d,
        None => return None,
    };
    let principal_decimal = match decimal_from_integer(new_principal_amount) {
        Some(d) => d,
        None => return Some(Err(ContractError::InvalidPrincipalAmount {  })),
    };
    let additional_yearly_rewards = match calculate_period_rewards(
        principal_decimal,
        max_apr,
        SECONDS_PER_YEAR,
    ) {
        Some(d) => d,
        None => return None,
    };
    let additional_yearly_amount = decimal_to_uint128(additional_yearly_rewards);
    let months_per_year: u128 = 12;
    let current_required_monthly = current_required_yearly.amount / months_per_year;
    let additional_required_monthly = additional_yearly_amount / months_per_year;
    let total_monthly_required = current_required_monthly + additional_required_monthly;
    let available_after_principal = if available_rewards.amount >= new_principal_amount {
        available_rewards.amount - new_principal_amount
    } else {
        0
    };
    if available_after_principal >= total_monthly_required {
        Some(Ok(()))
    } else {
        Some(
            Err(
                ContractError::InsufficientRewardFunds {
                    available_amount: available_after_principal,
                    available_denom: available_rewards.denom,
                    required_amount: total_monthly_required,
                    required_denom: state.config.denom.clone(),
                },
            ),
        )
    }
}

// ---------------------------------------------------------------------------
// Lockup utilities
// ---------------------------------------------------------------------------

/// The funds sent with a lock are one coin of the configured denomination.
pub open spec fn funds_valid(funds: Seq<Coin>, denom: String) -> bool {
    funds.len() == 1 && funds[0].denom@ == denom@
}

/// Checks the funds sent with a lock: one coin of the expected denomination,
/// of a non-zero amount.
pub fn validate_lock_funds(funds: &Vec<Coin>, expected_denom: &String) -> (r: Result<(), ContractError>)
    ensures
        !funds_valid(funds@, *expected_denom) ==> r == Err::<(), ContractError>(
            ContractError::InvalidFunds { expected_denom: *expected_denom },
        ),
        funds_valid(funds@, *expected_denom) && funds@[0].amount == 0 ==> r == Err::<(), ContractError>(
            ContractError::ZeroAmount {  },
        ),
        funds_valid(funds@, *expected_denom) && funds@[0].amount != 0 ==> r == Ok::<(), ContractError>(()),
{
    if !(funds.len() == 1 && funds[0].denom == *expected_denom) {
        return Err(ContractError::InvalidFunds { expected_denom: expected_denom.clone() });
    }
    if funds[0].amount == 0 {
        return Err(ContractError::ZeroAmount {  });
    }
    Ok(())
}

/// Checks that a deposit lies within the tier limits.
pub fn validate_deposit_amount(amount: u128, tier_config: &crate::state::TierConfig) -> (r: Result<(), ContractError>)
    ensures
        amount < tier_config.tier_1_min ==> r == Err::<(), ContractError>(ContractError::DepositBelowMinimum {  }),
        amount >= tier_config.tier_1_min && amount > tier_config.tier_4_limit ==> r == Err::<(), ContractError>(
            ContractError::DepositExceedsLimit {  },
        ),
        tier_config.tier_1_min <= amount <= tier_config.tier_4_limit ==> r == Ok::<(), ContractError>(()),
{
    if amount < tier_config.tier_1_min {
        return Err(ContractError::DepositBelowMinimum {  });
    }
    if amount > tier_config.tier_4_limit {
        return Err(ContractError::DepositExceedsLimit {  });
    }
    Ok(())
}

/// The times and APR of a lockup being created or upgraded.
pub struct LockupParams {
    pub unlock_time: Timestamp,
    pub last_claim_time: Timestamp,
    pub start_time: Timestamp,
    pub apr: Decimal,
}

/// The parameters of a new lockup of `amount` created at `now`: unlocked
/// after the configured duration, rewarded at its tier's APR; `None` when the
/// unlock time overflows.
pub fn create_new_lockup_params(now: Timestamp, amount: u128, config: &Config) -> (r: Option<LockupParams>)
    ensures
        config.lockup_duration_seconds * NANOS_PER_SECOND + now.nanos > u64::MAX ==> r is None,
        config.lockup_duration_seconds * NANOS_PER_SECOND + now.nanos <= u64::MAX ==> r == Some(LockupParams {
            unlock_time: Timestamp {
                nanos: (now.nanos + config.lockup_duration_seconds * NANOS_PER_SECOND) as u64,
            },
            last_claim_time: now,
            start_time: now,
            apr: spec_apr_for_amount(amount, config.tier_config),
        }),
{
    let apr = get_apr_for_amount(amount, &config.tier_config);
    let unlock_time = match now.checked_plus_seconds(config.lockup_duration_seconds) {
        Some(t) => t,
        None => return None,
    };
    Some(LockupParams { unlock_time, last_claim_time: now, start_time: now, apr })
}

/// The APR of an upgraded lockup: that of the combined deposit when its tier
/// is higher than the existing deposit's, else that of the existing deposit.
pub open spec fn spec_upgrade_apr(new_amount: u128, existing_amount: u128, t: crate::state::TierConfig) -> Decimal {
    let combined = (new_amount + existing_amount) as u128;
    if spec_tier_for_amount(combined, t) > spec_tier_for_amount(existing_amount, t) {
        spec_apr_for_amount(combined, t)
    } else {
        spec_apr_for_amount(existing_amount, t)
    }
}

/// The APR of a lockup of `existing_amount` (of tier `existing_tier`) to which
/// `new_amount` is added.
pub fn determine_upgrade_apr(
    new_amount: u128,
    existing_amount: u128,
    existing_tier: u8,
    tier_config: &crate::state::TierConfig,
) -> (apr: Decimal)
    requires
        new_amount + existing_amount <= u128::MAX,
    ensures
        apr == if spec_tier_for_amount((new_amount + existing_amount) as u128, *tier_config) > existing_tier {
            spec_apr_for_amount((new_amount + existing_amount) as u128, *tier_config)
        } else {
            spec_apr_for_amount(existing_amount, *tier_config)
        },
        existing_tier == spec_tier_for_amount(existing_amount, *tier_config) ==> apr
            == spec_upgrade_apr(new_amount, existing_amount, *tier_config),
{
    let combined_amount = new_amount + existing_amount;
    let new_tier = get_tier_for_amount(combined_amount, tier_config);
    if new_tier > existing_tier {
        get_apr_for_amount(combined_amount, tier_config)
    } else {
        get_apr_for_amount(existing_amount, tier_config)
    }
}

/// Pays out the rewards pending on `lockup` at `now` before it is upgraded:
/// when they are not zero, its last payout moves to `now` and the response
/// transfers them to `sender`.  `None` when the rewards cannot be computed.
pub fn auto_claim_rewards(lockup: &mut Lockup, now: Timestamp, sender: &String, config: &Config) -> (r:
    Option<(Response, Coin)>)
    ensures
        match spec_rewards(*old(lockup), now, config.tier_config) {
            None => r is None && *final(lockup) == *old(lockup),
            Some(claimed) => (r matches Some((resp, coin)) && coin == (Coin {
                denom: config.denom,
                amount: claimed,
            }) && (claimed == 0 ==> *final(lockup) == *old(lockup) && messages_view(resp)
                == Seq::<(String, Seq<Coin>)>::empty() && attributes_view(resp) == Seq::<
                (Seq<char>, Seq<char>),
            >::empty()) && (claimed != 0 ==> *final(lockup) == (Lockup {
                last_claim_time: now,
                ..*old(lockup)
            }) && messages_view(resp) == seq![(*sender, seq![coin])] && attributes_view(resp)
                == seq![("rewards_auto_claimed"@, decimal_digits(claimed as nat))])),
        },
{
    let claimable_rewards = match calculate_rewards(lockup, now, &config.denom, &config.tier_config) {
        Some(c) => c,
        None => return None,
    };
    if claimable_rewards.amount == 0 {
        return Some((Response::new(), claimable_rewards));
    }
    lockup.last_claim_time = now;
    let bank_msg = BankMsg::Send { to_address: sender.clone(), amount: vec![claimable_rewards.clone()] };
    assert(send_view(bank_msg) == (*sender, seq![claimable_rewards]));
    let response = Response::new().add_message(bank_msg).add_attribute(
        "rewards_auto_claimed",
        uint128_to_string(claimable_rewards.amount),
    );
    Some((response, claimable_rewards))
}

/// The response of an auto-claim of `claimed` rewards in `denom` to `sender`:
/// empty when nothing is claimed, else one transfer and one attribute.
pub open spec fn auto_claim_response(resp: Response, sender: String, denom: String, claimed: u128) -> bool {
    if claimed == 0 {
        &&& messages_view(resp) == Seq::<(String, Seq<Coin>)>::empty()
        &&& attributes_view(resp) == Seq::<(Seq<char>, Seq<char>)>::empty()
    } else {
        &&& messages_view(resp) == seq![(sender, seq![Coin { denom, amount: claimed }])]
        &&& attributes_view(resp) == seq![
            ("rewards_auto_claimed"@, decimal_digits(claimed as nat)),
        ]
    }
}

/// Adding `amount` to the existing lockup `e` at `now`: refused once its
/// unlock second has passed or when the combined deposit exceeds the limit;
/// otherwise the pending rewards are claimed (the second value), the unlock
/// and start times are kept, and the APR follows the tier of the combined
/// deposit when that tier is higher.  `None` when the arithmetic overflows.
pub open spec fn spec_upgrade(e: Lockup, now: Timestamp, amount: u128, t: crate::state::TierConfig) -> Option<
    Result<(LockupParams, u128), ContractError>,
> {
    if now.nanos / NANOS_PER_SECOND > e.unlock_time.nanos / NANOS_PER_SECOND {
        Some(Err(ContractError::PastLockupPeriod {  }))
    } else if amount + e.principal_amount.amount > u128::MAX {
        None
    } else if amount + e.principal_amount.amount > t.tier_4_limit {
        Some(Err(ContractError::DepositExceedsLimit {  }))
    } else {
        match spec_rewards(e, now, t) {
            None => None,
            Some(claimed) => Some(
                Ok(
                    (
                        LockupParams {
                            unlock_time: e.unlock_time,
                            last_claim_time: if claimed == 0 {
                                e.last_claim_time
                            } else {
                                now
                            },
                            start_time: e.start_time,
                            apr: spec_upgrade_apr(amount, e.principal_amount.amount, t),
                        },
                        claimed,
                    ),
                ),
            ),
        }
    }
}

/// Adds `principal_amount` to the sender's existing lockup: on success the
/// amount becomes the combined deposit, and the parameters of the upgraded
/// lockup come back with the response of the auto-claim.
pub fn handle_lockup_upgrade(
    existing: &Lockup,
    now: Timestamp,
    sender: &String,
    principal_amount: &mut Coin,
    config: &Config,
) -> (r: Option<Result<(LockupParams, Response), ContractError>>)
    ensures
        match spec_upgrade(*existing, now, old(principal_amount).amount, config.tier_config) {
            None => r is None,
            Some(Err(e)) => r == Some(Err::<(LockupParams, Response), ContractError>(e)),
            Some(Ok((params, claimed))) => (r matches Some(Ok((p, resp))) && p == params
                && auto_claim_response(resp, *sender, config.denom, claimed) && *final(principal_amount)
                == (Coin {
                denom: old(principal_amount).denom,
                amount: (old(principal_amount).amount + existing.principal_amount.amount) as u128,
            })),
        },
        !(r matches Some(Ok(_))) ==> *final(principal_amount) == *old(principal_amount),
{
    let mut existing_lockup = existing.clone();
    if now.seconds() > existing_lockup.unlock_time.seconds() {
        return Some(Err(ContractError::PastLockupPeriod {  }));
    }
    let existing_tier = get_tier_for_amount(existing_lockup.principal_amount.amount, &config.tier_config);
    let combined_amount = match principal_amount.amount.checked_add(existing_lockup.principal_amount.amount) {
        Some(c) => c,
        None => return None,
    };
    if combined_amount > config.tier_config.tier_4_limit {
        return Some(Err(ContractError::DepositExceedsLimit {  }));
    }
    let (response, _claimed_rewards) = match auto_claim_rewards(&mut existing_lockup, now, sender, config) {
        Some(x) => x,
        None => return None,
    };
    let apr = determine_upgrade_apr(
        principal_amount.amount,
        existing_lockup.principal_amount.amount,
        existing_tier,
        &config.tier_config,
    );
    principal_amount.amount = combined_amount;
    let params = LockupParams {
        unlock_time: existing_lockup.unlock_time,
        last_claim_time: existing_lockup.last_claim_time,
        start_time: existing_lockup.start_time,
        apr,
    };
    Some(Ok((params, response)))
}

// ---------------------------------------------------------------------------
// Executions
// ---------------------------------------------------------------------------

/// `ls` with `l` stored under its owner: replacing the owner's lockup when
/// there is one, else appended.
pub open spec fn spec_placed(ls: Seq<Lockup>, l: Lockup) -> Seq<Lockup> {
    match spec_find_lockup(ls, l.owner@) {
        Some(i) => ls.update(i, l),
        None => ls.push(l),
    }
}

/// The lockup that a lock of `coin` by `sender` at `now` leaves behind, with
/// the rewards it pays out on the way: a new lockup when the sender has none,
/// else the upgraded existing one.  `None` when the arithmetic overflows.
pub open spec fn spec_lock_outcome(s: State, now: Timestamp, sender: String, coin: Coin) -> Option<
    Result<(Lockup, u128), ContractError>,
> {
    let t = s.config.tier_config;
    match spec_find_lockup(s.lockups@, sender@) {
        None => {
            let unlock = now.nanos + s.config.lockup_duration_seconds * NANOS_PER_SECOND;
            if unlock > u64::MAX {
                None
            } else {
                Some(
                    Ok(
                        (
                            Lockup {
                                owner: sender,
                                principal_amount: coin,
                                unlock_time: Timestamp { nanos: unlock as u64 },
                                annual_percentage_rate: spec_apr_for_amount(coin.amount, t),
                                last_claim_time: now,
                                start_time: now,
                            },
                            0,
                        ),
                    ),
                )
            }
        },
        Some(i) => {
            let e = s.lockups@[i];
            match spec_upgrade(e, now, coin.amount, t) {
                None => None,
                Some(Err(err)) => Some(Err(err)),
                Some(Ok((p, claimed))) => Some(
                    Ok(
                        (
                            Lockup {
                                owner: sender,
                                principal_amount: Coin {
                                    denom: coin.denom,
                                    amount: (coin.amount + e.principal_amount.amount) as u128,
                                },
                                unlock_time: p.unlock_time,
                                annual_percentage_rate: p.apr,
                                last_claim_time: p.last_claim_time,
                                start_time: p.start_time,
                            },
                            claimed,
                        ),
                    ),
                ),
            }
        },
    }
}

/// What a lock decides: the funds must be one non-zero coin of the
/// configured denomination within the tier limits, the reward pool must be
/// able to take the deposit on, and then the sender's lockup is created or
/// upgraded.  On success, the lockup stored and the rewards auto-claimed.
/// `None` when the arithmetic overflows.
pub open spec fn spec_lock(s: State, env: Env, info: MessageInfo) -> Option<Result<(Lockup, u128), ContractError>> {
    let denom = s.config.denom;
    let t = s.config.tier_config;
    let funds = info.funds@;
    if !funds_valid(funds, denom) {
        Some(Err(ContractError::InvalidFunds { expected_denom: denom }))
    } else if funds[0].amount == 0 {
        Some(Err(ContractError::ZeroAmount {  }))
    } else if funds[0].amount < t.tier_1_min {
        Some(Err(ContractError::DepositBelowMinimum {  }))
    } else if funds[0].amount > t.tier_4_limit {
        Some(Err(ContractError::DepositExceedsLimit {  }))
    } else {
        match spec_sufficient_reward_funds(s, env.block_time, funds[0].amount) {
            None => None,
            Some(Err(e)) => Some(Err(e)),
            Some(Ok(_)) => spec_lock_outcome(s, env.block_time, info.sender, funds[0]),
        }
    }
}

/// The response of a lock by `sender` that stored `l` after auto-claiming
/// `claimed` rewards in `denom`.
pub open spec fn lock_response(resp: Response, sender: String, denom: String, l: Lockup, claimed: u128) -> bool {
    let claim_attributes = if claimed == 0 {
        Seq::<(Seq<char>, Seq<char>)>::empty()
    } else {
        seq![("rewards_auto_claimed"@, decimal_digits(claimed as nat))]
    };
    &&& messages_view(resp) == if claimed == 0 {
        Seq::<(String, Seq<Coin>)>::empty()
    } else {
        seq![(sender, seq![Coin { denom, amount: claimed }])]
    }
    &&& attributes_view(resp) == claim_attributes.push(("method"@, "lock"@)).push(
        ("owner"@, sender@),
    ).push(("amount"@, decimal_digits(l.principal_amount.amount as nat))).push(
        ("apr"@, decimal_text(l.annual_percentage_rate)),
    )
}

proof fn lemma_placed_keeps_owners_distinct(ls: Seq<Lockup>, l: Lockup)
    requires
        owners_distinct(ls),
    ensures
        owners_distinct(spec_placed(ls, l)),
{
    lemma_find_lockup(ls, l.owner@);
    match spec_find_lockup(ls, l.owner@) {
        Some(i) => {
            let n = ls.update(i, l);
            assert forall|a: int, b: int|
                0 <= a < n.len() && 0 <= b < n.len() && a != b implies n[a].owner@ != n[b].owner@ by {
                assert(ls[i].owner@ == l.owner@);
            }
        },
        None => {
            let n = ls.push(l);
            assert forall|a: int, b: int|
                0 <= a < n.len() && 0 <= b < n.len() && a != b implies n[a].owner@ != n[b].owner@ by {
                if a < ls.len() && b < ls.len() {
                } else if a < ls.len() {
                    assert(ls[a].owner@ != l.owner@);
                } else if b < ls.len() {
                    assert(ls[b].owner@ != l.owner@);
                }
            }
        },
    }
}

/// Every lockup of another owner than `owner` is in `after` exactly when it
/// is in `before`.
pub open spec fn others_untouched(before: Seq<Lockup>, after: Seq<Lockup>, owner: Seq<char>) -> bool {
    &&& forall|j: int| 0 <= j < before.len() && before[j].owner@ != owner ==> after.contains(before[j])
    &&& forall|k: int| 0 <= k < after.len() && after[k].owner@ != owner ==> before.contains(after[k])
}

/// What holds of every execution by `sender`: the configuration and the
/// balance are untouched; a refused or aborted execution leaves the lockups
/// as they were; no lockup of another owner changes; and owners stay
/// distinct.
pub open spec fn execution_frame(
    s0: State,
    s1: State,
    sender: String,
    r: Option<Result<Response, ContractError>>,
) -> bool {
    &&& s1.config == s0.config
    &&& s1.balance == s0.balance
    &&& !(r matches Some(Ok(_))) ==> s1.lockups@ == s0.lockups@
    &&& others_untouched(s0.lockups@, s1.lockups@, sender@)
    &&& owners_distinct(s0.lockups@) ==> owners_distinct(s1.lockups@)
}

/// The outcome of a lock: the answer that `spec_lock` decides, and on success
/// the lockup stored under the sender and the response describing it.
pub open spec fn lock_post(
    s0: State,
    s1: State,
    env: Env,
    info: MessageInfo,
    r: Option<Result<Response, ContractError>>,
) -> bool {
    match spec_lock(s0, env, info) {
        None => r is None,
        Some(Err(e)) => r == Some(Err::<Response, ContractError>(e)),
        Some(Ok((l, claimed))) => (r matches Some(Ok(resp)) && lock_response(
            resp,
            info.sender,
            s0.config.denom,
            l,
            claimed,
        ) && s1.lockups@ == spec_placed(s0.lockups@, l)),
    }
}

/// The outcome of a claim: refused without a lockup; else the answer that
/// `spec_claim` decides, and on success the lockup's last payout moved to
/// now and the rewards transferred to the sender.
pub open spec fn claim_post(
    s0: State,
    s1: State,
    env: Env,
    info: MessageInfo,
    r: Option<Result<Response, ContractError>>,
) -> bool {
    match spec_find_lockup(s0.lockups@, info.sender@) {
        None => (r matches Some(Err(e)) && is_lockup_not_found(e)),
        Some(i) => match spec_claim(s0, env.block_time, i) {
            None => r is None,
            Some(Err(e)) => r == Some(Err::<Response, ContractError>(e)),
            Some(Ok(rewards)) => (r matches Some(Ok(resp)) && s1.lockups@ == s0.lockups@.update(
                i,
                Lockup { last_claim_time: env.block_time, ..s0.lockups@[i] },
            ) && messages_view(resp) == seq![
                (info.sender, seq![Coin { denom: s0.config.denom, amount: rewards }]),
            ] && attributes_view(resp) == seq![
                ("method"@, "claim_rewards"@),
                ("owner"@, info.sender@),
                ("rewards_claimed"@, decimal_digits(rewards as nat)),
            ]),
        },
    }
}

/// The outcome of an unlock: refused without a lockup; else the answer that
/// `spec_unlock` decides, and on success the lockup removed and its principal
/// and pending rewards transferred to the sender.
pub open spec fn unlock_post(
    s0: State,
    s1: State,
    env: Env,
    info: MessageInfo,
    r: Option<Result<Response, ContractError>>,
) -> bool {
    match spec_find_lockup(s0.lockups@, info.sender@) {
        None => (r matches Some(Err(e)) && is_lockup_not_found(e)),
        Some(i) => match spec_unlock(s0, env.block_time, i) {
            None => r is None,
            Some(Err(e)) => r == Some(Err::<Response, ContractError>(e)),
            Some(Ok(pending)) => (r matches Some(Ok(resp)) && s1.lockups@ == s0.lockups@.remove(i)
                && messages_view(resp) == seq![
                (info.sender, unlock_payout(s0.lockups@[i], s0.config.denom, pending)),
            ] && attributes_view(resp) == seq![
                ("method"@, "unlock_principal"@),
                ("owner"@, info.sender@),
                ("final_rewards_claimed"@, decimal_digits(pending as nat)),
            ]),
        },
    }
}

/// The outcome of a deposit of rewards: refused for anyone but an
/// administrator and without funds; else a response naming the depositor and
/// the first coin sent.
pub open spec fn deposit_post(s: State, info: MessageInfo, r: Result<Response, ContractError>) -> bool {
    if !is_admin(s.config.admins@, info.sender) {
        r == Err::<Response, ContractError>(ContractError::Unauthorized {  })
    } else if info.funds@.len() == 0 {
        r == Err::<Response, ContractError>(ContractError::NoFundsForDeposit {  })
    } else {
        (r matches Ok(resp) && messages_view(resp) == Seq::<(String, Seq<Coin>)>::empty()
            && attributes_view(resp) == seq![
            ("method"@, "deposit_rewards"@),
            ("depositor"@, info.sender@),
            ("amount"@, decimal_digits(info.funds@[0].amount as nat)),
            ("denom"@, info.funds@[0].denom@),
        ])
    }
}

proof fn lemma_untouched_same(ls: Seq<Lockup>, o: Seq<char>)
    ensures
        others_untouched(ls, ls, o),
{
    assert forall|j: int| 0 <= j < ls.len() && ls[j].owner@ != o implies ls.contains(ls[j]) by {}
}

proof fn lemma_untouched_update(ls: Seq<Lockup>, i: int, l: Lockup, o: Seq<char>)
    requires
        0 <= i < ls.len(),
        ls[i].owner@ == o,
        l.owner@ == o,
    ensures
        others_untouched(ls, ls.update(i, l), o),
{
    let n = ls.update(i, l);
    assert forall|j: int| 0 <= j < ls.len() && ls[j].owner@ != o implies n.contains(ls[j]) by {
        assert(n[j] == ls[j]);
    }
    assert forall|k: int| 0 <= k < n.len() && n[k].owner@ != o implies ls.contains(n[k]) by {
        assert(n[k] == ls[k]);
    }
}

proof fn lemma_untouched_push(ls: Seq<Lockup>, l: Lockup, o: Seq<char>)
    requires
        l.owner@ == o,
    ensures
        others_untouched(ls, ls.push(l), o),
{
    let n = ls.push(l);
    assert forall|j: int| 0 <= j < ls.len() && ls[j].owner@ != o implies n.contains(ls[j]) by {
        assert(n[j] == ls[j]);
    }
    assert forall|k: int| 0 <= k < n.len() && n[k].owner@ != o implies ls.contains(n[k]) by {
        assert(n[k] == ls[k]);
    }
}

proof fn lemma_untouched_remove(ls: Seq<Lockup>, i: int, o: Seq<char>)
    requires
        0 <= i < ls.len(),
        ls[i].owner@ == o,
    ensures
        others_untouched(ls, ls.remove(i), o),
{
    let n = ls.remove(i);
    assert forall|j: int| 0 <= j < ls.len() && ls[j].owner@ != o implies n.contains(ls[j]) by {
        if j < i {
            assert(n[j] == ls[j]);
        } else {
            assert(n[j - 1] == ls[j]);
        }
    }
    assert forall|k: int| 0 <= k < n.len() && n[k].owner@ != o implies ls.contains(n[k]) by {
        if k < i {
            assert(n[k] == ls[k]);
        } else {
            assert(n[k] == ls[k + 1]);
        }
    }
}

/// Locks the funds sent by `info.sender`, or adds them to the sender's
/// existing lockup.
pub fn execute_lock(state: &mut State, env: &Env, info: &MessageInfo) -> (r: Option<
    Result<Response, ContractError>,
>)
    ensures
        lock_post(*old(state), *final(state), *env, *info, r),
        execution_frame(*old(state), *final(state), info.sender, r),
{
    proof {
        lemma_untouched_same(state.lockups@, info.sender@);
    }
    match validate_lock_funds(&info.funds, &state.config.denom) {
        Err(e) => return Some(Err(e)),
        Ok(()) => {},
    }
    let mut principal_amount = info.funds[0].clone();
    match validate_deposit_amount(principal_amount.amount, &state.config.tier_config) {
        Err(e) => return Some(Err(e)),
        Ok(()) => {},
    }
    match check_sufficient_reward_funds(state, env.block_time, principal_amount.amount) {
        None => return None,
        Some(Err(e)) => return Some(Err(e)),
        Some(Ok(())) => {},
    }
    let found = find_lockup(&state.lockups, &info.sender);
    let (lockup_params, response) = match found {
        Some(i) => match handle_lockup_upgrade(
            &state.lockups[i],
            env.block_time,
            &info.sender,
            &mut principal_amount,
            &state.config,
        ) {
            None => return None,
            Some(Err(e)) => return Some(Err(e)),
            Some(Ok(x)) => x,
        },
        None => match create_new_lockup_params(env.block_time, principal_amount.amount, &state.config) {
            None => return None,
            Some(p) => (p, Response::new()),
        },
    };
    let lockup = Lockup {
        owner: info.sender.clone(),
        principal_amount: principal_amount.clone(),
        unlock_time: lockup_params.unlock_time,
        annual_percentage_rate: lockup_params.apr,
        last_claim_time: lockup_params.last_claim_time,
        start_time: lockup_params.start_time,
    };
    let amount_text = uint128_to_string(principal_amount.amount);
    let apr_text = lockup_params.apr.to_text();
    proof {
        if owners_distinct(old(state).lockups@) {
            lemma_placed_keeps_owners_distinct(old(state).lockups@, lockup);
        }
        match found {
            Some(i) => lemma_untouched_update(old(state).lockups@, i as int, lockup, info.sender@),
            None => lemma_untouched_push(old(state).lockups@, lockup, info.sender@),
        }
    }
    match found {
        Some(i) => state.lockups.set(i, lockup),
        None => state.lockups.push(lockup),
    }
    let response = response.add_attribute("method", "lock".to_owned());
    let response = response.add_attribute("owner", info.sender.clone());
    let response = response.add_attribute("amount", amount_text);
    let response = response.add_attribute("apr", apr_text);
    Some(Ok(response))
}

/// The description of a lockup that is not stored.
pub open spec fn lockup_kind() -> Seq<char> {
    "lockup_contract::state::Lockup"@
}

/// The error of a lookup of a lockup that is not stored.
pub open spec fn is_lockup_not_found(e: ContractError) -> bool {
    e matches ContractError::Std(StdError::NotFound { kind }) && kind@ == lockup_kind()
}

/// The error of a lookup of a lockup that is not stored.
pub fn lockup_not_found() -> (e: ContractError)
    ensures
        is_lockup_not_found(e),
{
    ContractError::Std(StdError::NotFound { kind: "lockup_contract::state::Lockup".to_owned() })
}

/// What a claim by the owner of `s.lockups[i]` at `now` decides: the pending
/// rewards are paid out when they are not zero and the funds available for
/// rewards cover them.  `None` when the arithmetic overflows.
pub open spec fn spec_claim(s: State, now: Timestamp, i: int) -> Option<Result<u128, ContractError>> {
    let denom = s.config.denom;
    match spec_rewards(s.lockups@[i], now, s.config.tier_config) {
        None => None,
        Some(rewards) => match spec_available_rewards(s, now) {
            None => None,
            Some(available) => if rewards == 0 {
                Some(Err(ContractError::ZeroRewards {  }))
            } else if available < rewards {
                Some(
                    Err(
                        ContractError::CannotClaimRewards {
                            claim_amount: rewards,
                            claim_denom: denom,
                            available_amount: available,
                            available_denom: denom,
                        },
                    ),
                )
            } else {
                Some(Ok(rewards))
            },
        },
    }
}

proof fn lemma_update_keeps_owners_distinct(ls: Seq<Lockup>, i: int, l: Lockup)
    requires
        owners_distinct(ls),
        0 <= i < ls.len(),
        l.owner@ == ls[i].owner@,
    ensures
        owners_distinct(ls.update(i, l)),
{
    let n = ls.update(i, l);
    assert forall|a: int, b: int|
        0 <= a < n.len() && 0 <= b < n.len() && a != b implies n[a].owner@ != n[b].owner@ by {}
}

proof fn lemma_remove_keeps_owners_distinct(ls: Seq<Lockup>, i: int)
    requires
        owners_distinct(ls),
        0 <= i < ls.len(),
    ensures
        owners_distinct(ls.remove(i)),
{
    let n = ls.remove(i);
    assert forall|a: int, b: int|
        0 <= a < n.len() && 0 <= b < n.len() && a != b implies n[a].owner@ != n[b].owner@ by {
        let a2 = if a < i { a } else { a + 1 };
        let b2 = if b < i { b } else { b + 1 };
        assert(n[a] == ls[a2]);
        assert(n[b] == ls[b2]);
    }
}

/// Pays out the rewards accrued on the sender's lockup.
pub fn execute_claim_rewards(state: &mut State, env: &Env, info: &MessageInfo) -> (r: Option<
    Result<Response, ContractError>,
>)
    ensures
        claim_post(*old(state), *final(state), *env, *info, r),
        execution_frame(*old(state), *final(state), info.sender, r),
{
    proof {
        lemma_untouched_same(state.lockups@, info.sender@);
    }
    let i = match find_lockup(&state.lockups, &info.sender) {
        None => return Some(Err(lockup_not_found())),
        Some(i) => i,
    };
    let mut lockup = state.lockups[i].clone();
    let rewards = match calculate_rewards(
        &lockup,
        env.block_time,
        &state.config.denom,
        &state.config.tier_config,
    ) {
        None => return None,
        Some(c) => c,
    };
    let available_rewards = match query_available_rewards(state, env.block_time) {
        None => return None,
        Some(c) => c,
    };
    if rewards.amount == 0 {
        return Some(Err(ContractError::ZeroRewards {  }));
    }
    if !(available_rewards.amount >= rewards.amount) {
        return Some(
            Err(
                ContractError::CannotClaimRewards {
                    claim_amount: rewards.amount,
                    claim_denom: rewards.denom.clone(),
                    available_amount: available_rewards.amount,
                    available_denom: available_rewards.denom.clone(),
                },
            ),
        );
    }
    lockup.last_claim_time = env.block_time;
    proof {
        if owners_distinct(old(state).lockups@) {
            lemma_update_keeps_owners_distinct(old(state).lockups@, i as int, lockup);
        }
        lemma_untouched_update(old(state).lockups@, i as int, lockup, info.sender@);
    }
    state.lockups.set(i, lockup);
    let bank_msg = BankMsg::Send { to_address: info.sender.clone(), amount: vec![rewards.clone()] };
    assert(send_view(bank_msg) == (info.sender, seq![rewards]));
    let response = Response::new().add_message(bank_msg);
    let response = response.add_attribute("method", "claim_rewards".to_owned());
    let response = response.add_attribute("owner", info.sender.clone());
    let response = response.add_attribute("rewards_claimed", uint128_to_string(rewards.amount));
    assert(spec_find_lockup(old(state).lockups@, info.sender@) == Some(i as int));
    assert(spec_claim(*old(state), env.block_time, i as int) == Some(Ok::<u128, ContractError>(rewards.amount)));
    assert(state.lockups@ == old(state).lockups@.update(
                i as int,
                Lockup { last_claim_time: env.block_time, ..old(state).lockups@[i as int] }));
    assert(messages_view(response) == seq![
                (info.sender, seq![Coin { denom: old(state).config.denom, amount: rewards.amount }])]);
    assert(attributes_view(response) == seq![
                ("method"@, "claim_rewards"@),
                ("owner"@, info.sender@),
                ("rewards_claimed"@, decimal_digits(rewards.amount as nat)),
            ]);
    Some(Ok(response))
}

/// What an unlock by the owner of `s.lockups[i]` at `now` decides: refused
/// before the unlock time; otherwise the pending rewards are paid out with
/// the principal when the funds available for rewards cover them.  On
/// success, the rewards paid.  `None` when the arithmetic overflows.
pub open spec fn spec_unlock(s: State, now: Timestamp, i: int) -> Option<Result<u128, ContractError>> {
    let l = s.lockups@[i];
    let denom = s.config.denom;
    if now.nanos < l.unlock_time.nanos {
        Some(Err(ContractError::StillLocked { unlock_time: l.unlock_time }))
    } else {
        match spec_rewards(l, now, s.config.tier_config) {
            None => None,
            Some(pending) => match spec_available_rewards(s, now) {
                None => None,
                Some(available) => if available < pending {
                    Some(
                        Err(
                            ContractError::CannotClaimRewards {
                                claim_amount: pending,
                                claim_denom: denom,
                                available_amount: available,
                                available_denom: denom,
                            },
                        ),
                    )
                } else {
                    Some(Ok(pending))
                },
            },
        }
    }
}

/// The coins an unlock pays out: the principal, and the pending rewards when
/// they are not zero.
pub open spec fn unlock_payout(l: Lockup, denom: String, pending: u128) -> Seq<Coin> {
    if pending == 0 {
        seq![l.principal_amount]
    } else {
        seq![l.principal_amount, Coin { denom, amount: pending }]
    }
}

/// Pays out the principal and the pending rewards of the sender's lockup once
/// its lockup period is over, and removes the lockup.
pub fn execute_unlock_principal(state: &mut State, env: &Env, info: &MessageInfo) -> (r: Option<
    Result<Response, ContractError>,
>)
    ensures
        unlock_post(*old(state), *final(state), *env, *info, r),
        execution_frame(*old(state), *final(state), info.sender, r),
{
    proof {
        lemma_untouched_same(state.lockups@, info.sender@);
    }
    let i = match find_lockup(&state.lockups, &info.sender) {
        None => return Some(Err(lockup_not_found())),
        Some(i) => i,
    };
    if env.block_time.nanos < state.lockups[i].unlock_time.nanos {
        return Some(Err(ContractError::StillLocked { unlock_time: state.lockups[i].unlock_time }));
    }
    let pending_rewards = match calculate_rewards(
        &state.lockups[i],
        env.block_time,
        &state.config.denom,
        &state.config.tier_config,
    ) {
        None => return None,
        Some(c) => c,
    };
    let available_rewards = match query_available_rewards(state, env.block_time) {
        None => return None,
        Some(c) => c,
    };
    if !(available_rewards.amount >= pending_rewards.amount) {
        return Some(
            Err(
                ContractError::CannotClaimRewards {
                    claim_amount: pending_rewards.amount,
                    claim_denom: available_rewards.denom.clone(),
                    available_amount: available_rewards.amount,
                    available_denom: pending_rewards.denom.clone(),
                },
            ),
        );
    }
    proof {
        if owners_distinct(old(state).lockups@) {
            lemma_remove_keeps_owners_distinct(old(state).lockups@, i as int);
        }
        lemma_untouched_remove(old(state).lockups@, i as int, info.sender@);
    }
    let lockup = state.lockups.remove(i);
    let mut total_payout: Vec<Coin> = Vec::new();
    total_payout.push(lockup.principal_amount);
    if pending_rewards.amount != 0 {
        total_payout.push(pending_rewards.clone());
    }
    assert(total_payout@ == unlock_payout(old(state).lockups@[i as int], old(state).config.denom, pending_rewards.amount));
    let bank_msg = BankMsg::Send { to_address: info.sender.clone(), amount: total_payout };
    let response = Response::new().add_message(bank_msg);
    let response = response.add_attribute("method", "unlock_principal".to_owned());
    let response = response.add_attribute("owner", info.sender.clone());
    let response = response.add_attribute(
        "final_rewards_claimed",
        uint128_to_string(pending_rewards.amount),
    );
    assert(spec_find_lockup(old(state).lockups@, info.sender@) == Some(i as int));
    assert(spec_unlock(*old(state), env.block_time, i as int) == Some(
        Ok::<u128, ContractError>(pending_rewards.amount),
    ));
    assert(messages_view(response) == seq![
        (info.sender, unlock_payout(old(state).lockups@[i as int], old(state).config.denom, pending_rewards.amount)),
    ]);
    assert(attributes_view(response) == seq![
        ("method"@, "unlock_principal"@),
        ("owner"@, info.sender@),
        ("final_rewards_claimed"@, decimal_digits(pending_rewards.amount as nat)),
    ]);
    Some(Ok(response))
}

/// Whether `sender` is one of the administrators.
pub open spec fn is_admin(admins: Seq<String>, sender: String) -> bool {
    exists|j: int| 0 <= j < admins.len() && admins[j]@ == sender@
}

/// Accepts funds for the reward pool from an administrator.
pub fn execute_deposit_rewards(state: &State, info: &MessageInfo) -> (r: Result<Response, ContractError>)
    ensures
        deposit_post(*state, *info, r),
{
    let mut authorized = false;
    let mut j: usize = 0;
    while j < state.config.admins.len()
        invariant
            j <= state.config.admins@.len(),
            authorized <==> exists|k: int| 0 <= k < j && state.config.admins@[k]@ == info.sender@,
        decreases state.config.admins@.len() - j,
    {
        if state.config.admins[j] == info.sender {
            authorized = true;
        }
        j = j + 1;
    }
    if !authorized {
        return Err(ContractError::Unauthorized {  });
    }
    if info.funds.len() == 0 {
        return Err(ContractError::NoFundsForDeposit {  });
    }
    let response = Response::new().add_attribute("method", "deposit_rewards".to_owned());
    let response = response.add_attribute("depositor", info.sender.clone());
    let response = response.add_attribute("amount", uint128_to_string(info.funds[0].amount));
    let response = response.add_attribute("denom", info.funds[0].denom.clone());
    assert(attributes_view(response) == seq![
        ("method"@, "deposit_rewards"@),
        ("depositor"@, info.sender@),
        ("amount"@, decimal_digits(info.funds@[0].amount as nat)),
        ("denom"@, info.funds@[0].denom@),
    ]);
    Ok(response)
}

// ---------------------------------------------------------------------------
// Entry points
// ---------------------------------------------------------------------------

/// `items` joined by `sep`.
pub open spec fn joined(items: Seq<String>, sep: Seq<char>) -> Seq<char>
    decreases items.len(),
{
    if items.len() == 0 {
        Seq::empty()
    } else if items.len() == 1 {
        items[0]@
    } else {
        joined(items.drop_last(), sep) + sep + items.last()@
    }
}

/// The administrators a new contract gets: those given, or else its creator.
pub open spec fn spec_admins(msg: InstantiateMsg, sender: String) -> Seq<String> {
    match msg.admins {
        Some(admins) => admins@,
        None => seq![sender],
    }
}

/// Creates the contract's configuration from `msg`; the administrators are
/// those given in `msg`, or else the sender.
pub fn instantiate(info: &MessageInfo, msg: InstantiateMsg) -> (r: (Config, Response))
    ensures
        r.0.admins@ == spec_admins(msg, info.sender),
        r.0.denom == msg.denom,
        r.0.lockup_duration_seconds == msg.lockup_duration_seconds,
        r.0.tier_config == msg.tier_config,
        messages_view(r.1) == Seq::<(String, Seq<Coin>)>::empty(),
        attributes_view(r.1) == seq![
            ("method"@, "instantiate"@),
            ("admins"@, joined(spec_admins(msg, info.sender), ","@)),
            ("denom"@, msg.denom@),
        ],
{
    let ghost m = msg;
    let admins = match msg.admins {
        Some(admin_strings) => admin_strings,
        None => {
            let mut v: Vec<String> = Vec::new();
            v.push(info.sender.clone());
            v
        },
    };
    assert(admins@ == spec_admins(m, info.sender));
    let mut admins_str = String::new();
    let mut i: usize = 0;
    proof {
        reveal_strlit(",");
        assert(admins@.take(0).len() == 0);
    }
    while i < admins.len()
        invariant
            i <= admins@.len(),
            admins_str@ == joined(admins@.take(i as int), ","@),
        decreases admins@.len() - i,
    {
        proof {
            assert(admins@.take(i + 1).drop_last() == admins@.take(i as int));
        }
        if i != 0 {
            admins_str.append(",");
        }
        admins_str.append(admins[i].as_str());
        proof {
            reveal_strlit(",");
            if i == 0 {
                assert(admins_str@ == joined(admins@.take(1), ","@));
            }
        }
        i = i + 1;
    }
    assert(admins@.take(admins@.len() as int) == admins@);
    let config = Config {
        admins,
        denom: msg.denom,
        lockup_duration_seconds: msg.lockup_duration_seconds,
        tier_config: msg.tier_config,
    };
    let response = Response::new().add_attribute("method", "instantiate".to_owned());
    let response = response.add_attribute("admins", admins_str);
    let response = response.add_attribute("denom", config.denom.clone());
    (config, response)
}

/// Runs an execution: locks, unlocks, claims or deposits rewards.
pub fn execute(state: &mut State, env: &Env, info: &MessageInfo, msg: ExecuteMsg) -> (r: Option<
    Result<Response, ContractError>,
>)
    ensures
        msg is Lock ==> lock_post(*old(state), *final(state), *env, *info, r),
        msg is UnlockPrincipal ==> unlock_post(*old(state), *final(state), *env, *info, r),
        msg is ClaimRewards ==> claim_post(*old(state), *final(state), *env, *info, r),
        msg is DepositRewards ==> (r matches Some(d) && deposit_post(*old(state), *info, d)),
        msg is DepositRewards ==> *final(state) == *old(state),
        execution_frame(*old(state), *final(state), info.sender, r),
{
    match msg {
        ExecuteMsg::Lock {  } => execute_lock(state, env, info),
        ExecuteMsg::UnlockPrincipal {  } => execute_unlock_principal(state, env, info),
        ExecuteMsg::ClaimRewards {  } => execute_claim_rewards(state, env, info),
        ExecuteMsg::DepositRewards {  } => {
            proof {
                lemma_untouched_same(state.lockups@, info.sender@);
            }
            Some(execute_deposit_rewards(state, info))
        },
    }
}

/// The storage error of a lockup that is not stored.
pub open spec fn is_lockup_missing(e: StdError) -> bool {
    e matches StdError::NotFound { kind } && kind@ == lockup_kind()
}

/// The answer to a query about the lockup of `address`.
pub open spec fn lockup_query_post(
    s: State,
    address: String,
    r: Option<Result<QueryResponse, StdError>>,
    found: spec_fn(Lockup) -> Option<Result<QueryResponse, StdError>>,
) -> bool {
    match spec_find_lockup(s.lockups@, address@) {
        None => (r matches Some(Err(e)) && is_lockup_missing(e)),
        Some(i) => r == found(s.lockups@[i]),
    }
}

/// A coin of `denom` as a query answer, or `None`.
pub open spec fn coin_answer(amount: Option<u128>, denom: String) -> Option<Result<QueryResponse, StdError>> {
    match amount {
        None => None,
        Some(a) => Some(Ok(QueryResponse::Coin(Coin { denom, amount: a }))),
    }
}

/// Answers a query.  `None` when the arithmetic overflows, where the
/// computation aborts.
pub fn query(state: &State, env: &Env, msg: QueryMsg) -> (r: Option<Result<QueryResponse, StdError>>)
    ensures
        msg is GetConfig ==> (r matches Some(Ok(QueryResponse::Config(c))) && c.admins@
            == state.config.admins@ && c.denom == state.config.denom && c.lockup_duration_seconds
            == state.config.lockup_duration_seconds && c.tier_config == state.config.tier_config),
        msg matches QueryMsg::GetLockup { address } ==> lockup_query_post(
            *state,
            address,
            r,
            |l: Lockup| Some(Ok::<QueryResponse, StdError>(QueryResponse::Lockup(l))),
        ),
        msg matches QueryMsg::GetClaimableRewards { address } ==> lockup_query_post(
            *state,
            address,
            r,
            |l: Lockup|
                coin_answer(
                    spec_rewards(l, env.block_time, state.config.tier_config),
                    state.config.denom,
                ),
        ),
        msg is GetAllLockups ==> (r matches Some(Ok(QueryResponse::AllLockups(resp)))
            && resp.lockups@.len() == state.lockups@.len() && forall|i: int|
            0 <= i < state.lockups@.len() ==> resp.lockups@[i] == spec_lockup_info(
                state.lockups@[i],
                state.config.tier_config,
            )),
        msg is GetDepositedRewards ==> r == coin_answer(
            spec_available_rewards(*state, env.block_time),
            state.config.denom,
        ),
        msg is GetSumLockupsAndDeposits ==> (if principal_sum(state.lockups@) <= u128::MAX {
            r == Some(
                Ok::<QueryResponse, StdError>(
                    QueryResponse::SumLockupsAndDeposits(
                        state.lockups@.len() as u128,
                        Coin {
                            denom: state.config.denom,
                            amount: principal_sum(state.lockups@) as u128,
                        },
                    ),
                ),
            )
        } else {
            r is None
        }),
        msg is GetAllRewards ==> r == coin_answer(spec_rewards_per_year(*state), state.config.denom),
        msg is CheckCoinAvailability ==> r == match spec_coin_availability(*state, env.block_time) {
            None => None,
            Some(b) => Some(Ok::<QueryResponse, StdError>(QueryResponse::Bool(b))),
        },
{
    match msg {
        QueryMsg::GetConfig {  } => Some(Ok(QueryResponse::Config(state.config.clone()))),
        QueryMsg::GetLockup { address } => match find_lockup(&state.lockups, &address) {
            None => Some(Err(StdError::NotFound { kind: "lockup_contract::state::Lockup".to_owned() })),
            Some(i) => Some(Ok(QueryResponse::Lockup(state.lockups[i].clone()))),
        },
        QueryMsg::GetClaimableRewards { address } => match find_lockup(&state.lockups, &address) {
            None => Some(Err(StdError::NotFound { kind: "lockup_contract::state::Lockup".to_owned() })),
            Some(i) => match calculate_rewards(
                &state.lockups[i],
                env.block_time,
                &state.config.denom,
                &state.config.tier_config,
            ) {
                None => None,
                Some(c) => Some(Ok(QueryResponse::Coin(c))),
            },
        },
        QueryMsg::GetAllLockups {  } => Some(Ok(QueryResponse::AllLockups(query_all_lockups(state)))),
        QueryMsg::GetDepositedRewards {  } => match query_available_rewards(state, env.block_time) {
            None => None,
            Some(c) => Some(Ok(QueryResponse::Coin(c))),
        },
        QueryMsg::GetSumLockupsAndDeposits {  } => match query_sum_lockups_and_deposits(state) {
            None => None,
            Some((count, coin)) => Some(Ok(QueryResponse::SumLockupsAndDeposits(count, coin))),
        },
        QueryMsg::GetAllRewards {  } => match query_rewards_per_year(state) {
            None => None,
            Some(c) => Some(Ok(QueryResponse::Coin(c))),
        },
        QueryMsg::CheckCoinAvailability {  } => match check_coin_availability(state, env.block_time) {
            None => None,
            Some(b) => Some(Ok(QueryResponse::Bool(b))),
        },
    }
}

} // verus!
