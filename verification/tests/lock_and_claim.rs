use std::collections::BTreeMap;

use lockup_contract::contract::{execute, instantiate, query};
use lockup_contract::error::ContractError;
use lockup_contract::math::{Decimal, Timestamp};
use lockup_contract::msg::{
    AllLockupsResponse, BankMsg, Env, ExecuteMsg, InstantiateMsg, MessageInfo, QueryMsg,
    QueryResponse, Response,
};
use lockup_contract::state::{Coin, Config, Lockup, State, TierConfig};

const ADMIN: &str = "admin";
const USER_1: &str = "user1";
const DENOM: &str = "uc4e";
const CONTRACT: &str = "contract";
const C4E_1: u128 = 1_000_000;
const GENESIS_NANOS: u64 = 1_571_797_419_879_305_533;

fn dec(d: cosmwasm_std::Decimal) -> Decimal {
    Decimal { atomics: d.atomics().u128() }
}

/// A small chain: the bank balances, the block time and the contract's
/// stored values, driven through the library's entry points.
struct App {
    time: u64,
    balances: BTreeMap<String, u128>,
    config: Config,
    lockups: BTreeMap<String, Lockup>,
}

impl App {
    fn balance(&self, who: &str) -> u128 {
        *self.balances.get(who).unwrap_or(&0)
    }

    fn transfer(balances: &mut BTreeMap<String, u128>, from: &str, to: &str, amount: u128) {
        let have = *balances.get(from).unwrap_or(&0);
        assert!(have >= amount, "insufficient funds");
        balances.insert(from.to_string(), have - amount);
        let other = *balances.get(to).unwrap_or(&0);
        balances.insert(to.to_string(), other + amount);
    }

    fn state(&self) -> State {
        State {
            config: self.config.clone(),
            lockups: self.lockups.values().cloned().collect(),
            balance: self.balance(CONTRACT),
        }
    }

    fn env(&self) -> Env {
        Env { block_time: Timestamp { nanos: self.time } }
    }

    fn execute(&mut self, sender: &str, msg: ExecuteMsg, funds: &[u128]) -> Result<Response, ContractError> {
        let mut balances = self.balances.clone();
        for amount in funds {
            App::transfer(&mut balances, sender, CONTRACT, *amount);
        }
        let mut state = State {
            config: self.config.clone(),
            lockups: self.lockups.values().cloned().collect(),
            balance: *balances.get(CONTRACT).unwrap_or(&0),
        };
        let info = MessageInfo {
            sender: sender.to_string(),
            funds: funds.iter().map(|a| Coin { denom: DENOM.to_string(), amount: *a }).collect(),
        };
        let result = execute(&mut state, &self.env(), &info, msg).expect("arithmetic overflow");
        let response = result?;
        for message in &response.messages {
            let BankMsg::Send { to_address, amount } = message;
            for coin in amount {
                App::transfer(&mut balances, CONTRACT, to_address, coin.amount);
            }
        }
        self.balances = balances;
        self.lockups = state.lockups.into_iter().map(|l| (l.owner.clone(), l)).collect();
        Ok(response)
    }

    fn query(&self, msg: QueryMsg) -> Result<QueryResponse, lockup_contract::error::StdError> {
        query(&self.state(), &self.env(), msg).expect("arithmetic overflow")
    }

    fn advance_time(&mut self, seconds: u64) {
        self.time += seconds * 1_000_000_000;
    }
}

fn tier_config() -> TierConfig {
    TierConfig {
        tier_1_min: 10_000 * 1_000_000,
        tier_2_min: 50_000 * 1_000_000,
        tier_3_min: 100_000 * 1_000_000,
        tier_4_min: 500_000 * 1_000_000,
        tier_4_limit: 1_000_000 * 1_000_000,
        tier_1_apr: dec(cosmwasm_std::Decimal::percent(2)),
        tier_2_apr: dec(cosmwasm_std::Decimal::from_atomics(35u32, 3).unwrap()),
        tier_3_apr: dec(cosmwasm_std::Decimal::percent(5)),
        tier_4_apr: dec(cosmwasm_std::Decimal::percent(8)),
        percentage_increase_per_year: dec(cosmwasm_std::Decimal::percent(1)),
        max_percentage_increase: dec(cosmwasm_std::Decimal::percent(10)),
    }
}

fn proper_instantiate() -> App {
    let mut balances = BTreeMap::new();
    balances.insert(USER_1.to_string(), 1_000_000_000_000_000u128);
    balances.insert(ADMIN.to_string(), 1_000_000_000_000u128);
    let msg = InstantiateMsg {
        admins: None,
        denom: DENOM.to_string(),
        lockup_duration_seconds: 31_536_000,
        tier_config: tier_config(),
    };
    let info = MessageInfo { sender: ADMIN.to_string(), funds: vec![] };
    let (config, _response) = instantiate(&info, msg);
    App { time: GENESIS_NANOS, balances, config, lockups: BTreeMap::new() }
}

fn deposit_rewards(app: &mut App, admin: &str, amount: u128) {
    app.execute(admin, ExecuteMsg::DepositRewards {}, &[amount]).unwrap();
}

fn lock_funds(app: &mut App, user: &str, amount: u128) {
    app.execute(user, ExecuteMsg::Lock {}, &[amount]).unwrap();
}

fn claim_rewards(app: &mut App, user: &str) {
    app.execute(user, ExecuteMsg::ClaimRewards {}, &[]).unwrap();
}

fn unlock_lockup(app: &mut App, user: &str) {
    app.execute(user, ExecuteMsg::UnlockPrincipal {}, &[]).unwrap();
}

fn query_rewards(app: &App, user: &str) -> Coin {
    match app.query(QueryMsg::GetClaimableRewards { address: user.to_string() }).unwrap() {
        QueryResponse::Coin(c) => c,
        other => panic!("unexpected answer {:?}", other),
    }
}

fn query_lockup(app: &App, user: &str) -> Lockup {
    match app.query(QueryMsg::GetLockup { address: user.to_string() }).unwrap() {
        QueryResponse::Lockup(l) => l,
        other => panic!("unexpected answer {:?}", other),
    }
}

fn query_coin(app: &App, msg: QueryMsg) -> Coin {
    match app.query(msg).unwrap() {
        QueryResponse::Coin(c) => c,
        other => panic!("unexpected answer {:?}", other),
    }
}

fn query_all_lockups(app: &App) -> AllLockupsResponse {
    match app.query(QueryMsg::GetAllLockups {}).unwrap() {
        QueryResponse::AllLockups(r) => r,
        other => panic!("unexpected answer {:?}", other),
    }
}

fn query_sum(app: &App) -> (u128, Coin) {
    match app.query(QueryMsg::GetSumLockupsAndDeposits {}).unwrap() {
        QueryResponse::SumLockupsAndDeposits(count, coin) => (count, coin),
        other => panic!("unexpected answer {:?}", other),
    }
}

fn query_bool(app: &App, msg: QueryMsg) -> bool {
    match app.query(msg).unwrap() {
        QueryResponse::Bool(b) => b,
        other => panic!("unexpected answer {:?}", other),
    }
}

#[test]
fn test_lock_and_claim_flow() {
    let mut app = proper_instantiate();

    // 1. admin deposits rewards
    deposit_rewards(&mut app, ADMIN, 500_000 * C4E_1);

    // 2. user locks funds (Tier 4: 500k C4E -> 8% APR)
    let lock_amount = 500_000 * C4E_1;
    lock_funds(&mut app, USER_1, lock_amount);

    // 3. verify lockup details
    let lockup = query_lockup(&app, USER_1);
    assert_eq!(lockup.principal_amount.amount, lock_amount);
    assert_eq!(lockup.annual_percentage_rate, dec(cosmwasm_std::Decimal::percent(8)));

    // 4. advance time by half a year
    app.advance_time(31_536_000 / 2);

    // 5. query claimable rewards
    let rewards = query_rewards(&app, USER_1);
    let expected_rewards = lock_amount * 8 / 100 / 2;
    assert_eq!(rewards.amount, expected_rewards);

    // 6. user claims rewards
    claim_rewards(&mut app, USER_1);

    // 7. verify user balance increased
    let expected_balance = 1_000_000_000_000_000 - lock_amount + expected_rewards;
    assert_eq!(app.balance(USER_1), expected_balance);

    // 8. advance time past the unlock period
    app.advance_time(31_536_000 / 2);

    // 9. unlock principal
    unlock_lockup(&mut app, USER_1);

    // 10. verify final balance
    let total_rewards = lock_amount * 8 / 100;
    let expected_final_balance = 1_000_000_000_000_000u128 + total_rewards;
    assert_eq!(app.balance(USER_1), expected_final_balance);

    // 11. verify lockup is gone
    assert!(app.query(QueryMsg::GetLockup { address: USER_1.to_string() }).is_err());
}

#[test]
fn test_rewards_continue_after_lockup_period() {
    let mut app = proper_instantiate();
    deposit_rewards(&mut app, ADMIN, 500_000 * C4E_1);

    let lock_amount = 500_000 * C4E_1;
    let lock_duration = 31_536_000;
    lock_funds(&mut app, USER_1, lock_amount);

    app.advance_time(lock_duration);

    let rewards_at_unlock = query_rewards(&app, USER_1);
    let expected_full_year_rewards = lock_amount * 8 / 100;
    assert_eq!(rewards_at_unlock.amount, expected_full_year_rewards);

    app.advance_time(2 * 31_536_000);

    let rewards_after_extended_time = query_rewards(&app, USER_1);
    let expected_three_year_rewards =
        lock_amount * 8 / 100 + lock_amount * 9 / 100 + lock_amount * 10 / 100;
    assert_eq!(
        rewards_after_extended_time.amount,
        expected_three_year_rewards,
        "Rewards should continue to accumulate after lockup period ends"
    );

    claim_rewards(&mut app, USER_1);

    app.advance_time(31_536_000);

    let rewards_after_claim_and_time = query_rewards(&app, USER_1);
    let expected_one_more_year_rewards = lock_amount * 11 / 100;
    assert_eq!(
        rewards_after_claim_and_time.amount,
        expected_one_more_year_rewards,
        "New rewards should accumulate after claiming"
    );

    unlock_lockup(&mut app, USER_1);

    let total_rewards_claimed = expected_three_year_rewards + expected_one_more_year_rewards;
    let expected_final_balance = 1_000_000_000_000_000u128 + total_rewards_claimed;
    assert_eq!(app.balance(USER_1), expected_final_balance);
}

#[test]
fn test_claim_rewards_after_lockup_period_ends() {
    let mut app = proper_instantiate();
    deposit_rewards(&mut app, ADMIN, 500_000 * C4E_1);

    let lock_amount = 500_000 * C4E_1;
    lock_funds(&mut app, USER_1, lock_amount);

    app.advance_time(3 * 31_536_000);

    claim_rewards(&mut app, USER_1);

    let expected_rewards = lock_amount * 8 / 100 + lock_amount * 9 / 100 + lock_amount * 10 / 100;
    let expected_balance = 1_000_000_000_000_000u128 - lock_amount + expected_rewards;
    assert_eq!(app.balance(USER_1), expected_balance);

    let remaining_rewards = query_rewards(&app, USER_1);
    assert_eq!(remaining_rewards.amount, 0, "No more rewards should be claimable");
}

#[test]
fn test_deposit_with_lockup() {
    let mut app = proper_instantiate();
    deposit_rewards(&mut app, ADMIN, 500_000 * C4E_1);

    let lock_amount = 100_000 * C4E_1;
    lock_funds(&mut app, USER_1, lock_amount);

    let lock_amount2 = 400_000 * C4E_1;

    let lockup = query_lockup(&app, USER_1);
    assert_eq!(lockup.principal_amount.amount, lock_amount);
    assert_eq!(lockup.annual_percentage_rate, dec(cosmwasm_std::Decimal::percent(5)));

    app.advance_time(31_536_000 / 2);

    let rewards = query_rewards(&app, USER_1);
    let expected_rewards = lock_amount * 5 / 100 / 2;
    assert_eq!(rewards.amount, expected_rewards);

    claim_rewards(&mut app, USER_1);

    let expected_balance = 1_000_000_000_000_000 - lock_amount + expected_rewards;
    assert_eq!(app.balance(USER_1), expected_balance);

    lock_funds(&mut app, USER_1, lock_amount2);

    let expected_total_lock_amount = lock_amount + lock_amount2;
    let lockup = query_lockup(&app, USER_1);
    let (lockup_count, _) = query_sum(&app);
    assert_eq!(lockup_count, 1);

    assert_eq!(lockup.principal_amount.amount, expected_total_lock_amount);
    assert_eq!(lockup.annual_percentage_rate, dec(cosmwasm_std::Decimal::percent(8)));

    app.advance_time(31_536_000 / 2);

    let rewards = query_rewards(&app, USER_1);
    let expected_rewards = expected_total_lock_amount * 8 / 100 / 2;
    assert_eq!(rewards.amount, expected_rewards);

    claim_rewards(&mut app, USER_1);

    let final_expected_rewards = lock_amount * 5 / 100 / 2 + expected_total_lock_amount * 8 / 100 / 2;

    unlock_lockup(&mut app, USER_1);

    let expected_final_balance = 1_000_000_000_000_000 + final_expected_rewards;
    assert_eq!(app.balance(USER_1), expected_final_balance);
}

#[test]
fn deposit_above_limit() {
    let mut app = proper_instantiate();
    deposit_rewards(&mut app, ADMIN, 500_000 * C4E_1);

    let lock_amount = 1_050_000 * C4E_1;
    let result = app.execute(USER_1, ExecuteMsg::Lock {}, &[lock_amount]);

    assert!(result.is_err());
    let err_msg = result.unwrap_err().message();
    assert!(
        err_msg.contains("Deposit exceeds maximum limit"),
        "Unexpected error message: {}",
        err_msg
    );
}

#[test]
fn deposit_below_limit() {
    let mut app = proper_instantiate();
    deposit_rewards(&mut app, ADMIN, 500_000 * C4E_1);

    let lock_amount = 5_000 * C4E_1;
    let result = app.execute(USER_1, ExecuteMsg::Lock {}, &[lock_amount]);

    assert!(result.is_err());
    let err_msg = result.unwrap_err().message();
    assert!(
        err_msg.contains("Deposit below minimum required amount"),
        "Unexpected error message: {}",
        err_msg
    );
}

#[test]
fn test_lock_and_claim_for_tier3() {
    let mut app = proper_instantiate();
    deposit_rewards(&mut app, ADMIN, 500_000 * C4E_1);

    // Tier 2: 50k C4E -> 3.5% APR
    let lock_amount: u128 = 50_000 * C4E_1;
    lock_funds(&mut app, USER_1, lock_amount);

    let lockup = query_lockup(&app, USER_1);
    assert_eq!(lockup.principal_amount.amount, lock_amount);
    assert_eq!(
        lockup.annual_percentage_rate,
        dec(cosmwasm_std::Decimal::from_ratio(35u128, 1000u128))
    );

    app.advance_time(31_536_000 / 2);

    let rewards = query_rewards(&app, USER_1);
    let expected_rewards = lock_amount * 35 / 1000 / 2;
    assert_eq!(rewards.amount, expected_rewards);

    claim_rewards(&mut app, USER_1);

    let expected_balance = 1_000_000_000_000_000 - lock_amount + expected_rewards;
    assert_eq!(app.balance(USER_1), expected_balance);

    app.advance_time(31_536_000 / 2);

    unlock_lockup(&mut app, USER_1);

    let total_rewards = lock_amount * 35 / 1000;
    let expected_final_balance = 1_000_000_000_000_000u128 + total_rewards;
    assert_eq!(app.balance(USER_1), expected_final_balance);

    assert!(app.query(QueryMsg::GetLockup { address: USER_1.to_string() }).is_err());
}

#[test]
fn test_get_all_lockups_query() {
    let mut app = proper_instantiate();
    deposit_rewards(&mut app, ADMIN, 1_000_000 * C4E_1);

    // Tier 3: 5% APR
    let lock_amount1 = 100_000 * C4E_1;
    lock_funds(&mut app, USER_1, lock_amount1);

    let all_lockups = query_all_lockups(&app);
    assert_eq!(all_lockups.lockups.len(), 1);

    let user1_lockup = &all_lockups.lockups[0];
    assert_eq!(user1_lockup.address, USER_1.to_string());
    assert_eq!(user1_lockup.principal_amount, lock_amount1);
    assert_eq!(user1_lockup.annual_percentage_rate, dec(cosmwasm_std::Decimal::percent(5)));
    assert_eq!(user1_lockup.tier, 3);
    assert!(user1_lockup.start_time.nanos / 1_000_000_000 > 0, "Start time should be set");
}

#[test]
fn test_start_time_preservation_on_tier_upgrade() {
    let mut app = proper_instantiate();
    deposit_rewards(&mut app, ADMIN, 1_000_000 * C4E_1);

    // Tier 1: 10k C4E
    let initial_amount = 10_000 * C4E_1;
    lock_funds(&mut app, USER_1, initial_amount);

    let initial_lockups = query_all_lockups(&app);
    let initial_start_time = initial_lockups.lockups[0].start_time;

    app.advance_time(1000);

    // total 500k = Tier 4
    let additional_amount = 490_000 * C4E_1;
    lock_funds(&mut app, USER_1, additional_amount);

    let updated_lockups = query_all_lockups(&app);
    let updated_lockup = &updated_lockups.lockups[0];

    assert_eq!(updated_lockup.tier, 4);
    assert_eq!(updated_lockup.annual_percentage_rate, dec(cosmwasm_std::Decimal::percent(8)));
    assert_eq!(updated_lockup.principal_amount, initial_amount + additional_amount);
    assert_eq!(
        updated_lockup.start_time, initial_start_time,
        "Start time should be preserved when upgrading tiers"
    );
}

#[test]
fn test_progressive_apr_10year() {
    let mut app = proper_instantiate();
    deposit_rewards(&mut app, ADMIN, 1_000_000 * C4E_1);

    // Tier 3: 5% base APR
    let lock_amount = 100_000 * C4E_1;
    lock_funds(&mut app, USER_1, lock_amount);

    app.advance_time(10 * 31_536_000);

    let expected_rewards = lock_amount * 5 / 100
        + lock_amount * 6 / 100
        + lock_amount * 7 / 100
        + lock_amount * 8 / 100
        + lock_amount * 9 / 100
        + lock_amount * 10 / 100
        + lock_amount * 11 / 100
        + lock_amount * 12 / 100
        + lock_amount * 13 / 100
        + lock_amount * 14 / 100;

    let rewards = query_rewards(&app, USER_1);
    assert_eq!(rewards.amount, expected_rewards);
}

#[test]
fn test_deposit_rewards_query() {
    let mut app = proper_instantiate();

    deposit_rewards(&mut app, ADMIN, 750_000 * C4E_1);

    let deposited_rewards = query_coin(&app, QueryMsg::GetDepositedRewards {});
    assert_eq!(deposited_rewards.amount, 750_000 * C4E_1);
    assert_eq!(deposited_rewards.denom, DENOM.to_string());

    let lock_amount = 100_000 * C4E_1;
    lock_funds(&mut app, USER_1, lock_amount);

    let deposited_rewards_after_lock = query_coin(&app, QueryMsg::GetDepositedRewards {});

    app.advance_time(31_536_000 / 2);

    let user_rewards = query_rewards(&app, USER_1);
    let expected_user_rewards = lock_amount * 5 / 100 / 2;
    assert_eq!(user_rewards.amount, expected_user_rewards);

    let deposited_rewards_after_time = query_coin(&app, QueryMsg::GetDepositedRewards {});

    let _rewards_per_year = query_coin(&app, QueryMsg::GetAllRewards {});

    let is_sufficient_funds = query_bool(&app, QueryMsg::CheckCoinAvailability {});
    assert!(is_sufficient_funds, "Should have sufficient funds for rewards");

    app.advance_time(31_536_000 / 2);

    let _user_rewards_after_full_year = query_rewards(&app, USER_1);

    assert_eq!(deposited_rewards_after_lock.amount, 750_000 * C4E_1);
    assert_eq!(deposited_rewards_after_lock.denom, DENOM.to_string());

    let expected_available_rewards = 750_000 * C4E_1 - expected_user_rewards;
    assert_eq!(deposited_rewards_after_time.amount, expected_available_rewards);
    assert_eq!(deposited_rewards_after_time.denom, DENOM.to_string());
}

#[test]
fn test_coin_availability_insufficient_funds() {
    let mut app = proper_instantiate();

    let small_deposit = 1_000 * C4E_1;
    deposit_rewards(&mut app, ADMIN, small_deposit);

    // Tier 4: 8% APR
    let large_lock_amount = 500_000 * C4E_1;
    let result = app.execute(USER_1, ExecuteMsg::Lock {}, &[large_lock_amount]);

    assert!(result.is_err(), "Lock should fail due to insufficient reward funds");
    let error_msg = result.unwrap_err().message();
    assert!(
        error_msg.contains("Insufficient reward funds"),
        "Error should mention insufficient reward funds"
    );

    let is_sufficient_funds = query_bool(&app, QueryMsg::CheckCoinAvailability {});
    assert!(is_sufficient_funds, "Should have sufficient funds since no lockups exist");

    let deposited_rewards = query_coin(&app, QueryMsg::GetDepositedRewards {});
    let required_per_year = query_coin(&app, QueryMsg::GetAllRewards {});

    assert_eq!(deposited_rewards.amount, small_deposit);
    assert_eq!(required_per_year.amount, 0);
}

#[test]
fn test_get_sum_lockups_and_deposits() {
    let mut app = proper_instantiate();
    let user2 = "user2";
    app.balances.insert(user2.to_string(), 1_000_000_000_000_000u128);

    let rewards_deposited = 1_000_000 * C4E_1;
    deposit_rewards(&mut app, ADMIN, rewards_deposited);

    let (lockup_count, principal_sum) = query_sum(&app);
    assert_eq!(lockup_count, 0);
    assert_eq!(principal_sum.amount, 0);
    assert_eq!(principal_sum.denom, DENOM);

    let lock_amount1 = 100_000 * C4E_1;
    lock_funds(&mut app, USER_1, lock_amount1);

    let lock_amount2 = 200_000 * C4E_1;
    lock_funds(&mut app, user2, lock_amount2);

    let (lockup_count, principal_sum) = query_sum(&app);
    assert_eq!(lockup_count, 2);

    app.advance_time(31_536_000 / 2);

    let expected_principal_total = lock_amount1 + lock_amount2;
    assert_eq!(principal_sum.amount, expected_principal_total);
    assert_eq!(principal_sum.denom, DENOM);
}

#[test]
fn test_lock_insufficient_reward_funds() {
    let mut app = proper_instantiate();

    let minimal_deposit = 1_000 * C4E_1;
    deposit_rewards(&mut app, ADMIN, minimal_deposit);

    // Tier 4
    let large_lock_amount = 500_000 * C4E_1;
    let result = app.execute(USER_1, ExecuteMsg::Lock {}, &[large_lock_amount]);

    assert!(result.is_err(), "Lock should fail due to insufficient reward funds");
    let error_msg = result.unwrap_err().message();
    assert!(
        error_msg.contains("Insufficient reward funds"),
        "Error should mention insufficient reward funds"
    );
}

const USER_2: &str = "user2";

fn execute_with_coins(app: &App, sender: &str, msg: ExecuteMsg, coins: Vec<Coin>) -> Result<Response, ContractError> {
    let mut state = app.state();
    let info = MessageInfo { sender: sender.to_string(), funds: coins };
    execute(&mut state, &app.env(), &info, msg).expect("arithmetic overflow")
}

fn coin(amount: u128, denom: &str) -> Coin {
    Coin { denom: denom.to_string(), amount }
}

fn attributes(response: &Response) -> Vec<(String, String)> {
    response.attributes.iter().map(|a| (a.key.clone(), a.value.clone())).collect()
}

fn pair(key: &str, value: &str) -> (String, String) {
    (key.to_string(), value.to_string())
}

#[test]
fn lock_answers_with_its_attributes() {
    let mut app = proper_instantiate();
    deposit_rewards(&mut app, ADMIN, 500_000 * C4E_1);
    let response = app.execute(USER_1, ExecuteMsg::Lock {}, &[500_000 * C4E_1]).unwrap();
    assert!(response.messages.is_empty());
    assert_eq!(
        attributes(&response),
        vec![pair("method", "lock"), pair("owner", USER_1), pair("amount", "500000000000"), pair("apr", "0.08")]
    );
}

#[test]
fn deposit_answers_with_its_attributes() {
    let mut app = proper_instantiate();
    let response = app.execute(ADMIN, ExecuteMsg::DepositRewards {}, &[1_234_567]).unwrap();
    assert!(response.messages.is_empty());
    assert_eq!(
        attributes(&response),
        vec![pair("method", "deposit_rewards"), pair("depositor", ADMIN), pair("amount", "1234567"), pair("denom", DENOM)]
    );
    assert_eq!(app.balance(CONTRACT), 1_234_567);
}

#[test]
fn instantiate_answers_with_the_joined_admins() {
    let msg = InstantiateMsg {
        admins: Some(vec!["a1".to_string(), "a2".to_string(), "a3".to_string()]),
        denom: DENOM.to_string(),
        lockup_duration_seconds: 100,
        tier_config: tier_config(),
    };
    let info = MessageInfo { sender: ADMIN.to_string(), funds: vec![] };
    let (config, response) = instantiate(&info, msg);
    assert_eq!(config.admins, vec!["a1".to_string(), "a2".to_string(), "a3".to_string()]);
    assert_eq!(config.lockup_duration_seconds, 100);
    assert_eq!(
        attributes(&response),
        vec![pair("method", "instantiate"), pair("admins", "a1,a2,a3"), pair("denom", DENOM)]
    );
}

#[test]
fn lock_in_a_foreign_denom_is_refused() {
    let mut app = proper_instantiate();
    deposit_rewards(&mut app, ADMIN, 500_000 * C4E_1);
    let result = execute_with_coins(&app, USER_1, ExecuteMsg::Lock {}, vec![coin(20_000 * C4E_1, "uatom")]);
    match result {
        Err(ContractError::InvalidFunds { expected_denom }) => assert_eq!(expected_denom, DENOM),
        other => panic!("unexpected outcome {:?}", other),
    }
}

#[test]
fn lock_with_two_coins_is_refused() {
    let mut app = proper_instantiate();
    deposit_rewards(&mut app, ADMIN, 500_000 * C4E_1);
    let coins = vec![coin(20_000 * C4E_1, DENOM), coin(20_000 * C4E_1, DENOM)];
    let result = execute_with_coins(&app, USER_1, ExecuteMsg::Lock {}, coins);
    assert!(matches!(result, Err(ContractError::InvalidFunds { .. })));
}

#[test]
fn lock_without_coins_is_refused() {
    let app = proper_instantiate();
    let result = execute_with_coins(&app, USER_1, ExecuteMsg::Lock {}, vec![]);
    assert!(matches!(result, Err(ContractError::InvalidFunds { .. })));
}

#[test]
fn lock_of_zero_is_refused() {
    let app = proper_instantiate();
    let result = execute_with_coins(&app, USER_1, ExecuteMsg::Lock {}, vec![coin(0, DENOM)]);
    assert!(matches!(result, Err(ContractError::ZeroAmount {})));
}

#[test]
fn deposit_by_a_stranger_is_refused() {
    let mut app = proper_instantiate();
    let result = app.execute(USER_1, ExecuteMsg::DepositRewards {}, &[C4E_1]);
    assert!(matches!(result, Err(ContractError::Unauthorized {})));
    assert_eq!(app.balance(CONTRACT), 0);
}

#[test]
fn deposit_without_coins_is_refused() {
    let mut app = proper_instantiate();
    let result = app.execute(ADMIN, ExecuteMsg::DepositRewards {}, &[]);
    assert!(matches!(result, Err(ContractError::NoFundsForDeposit {})));
}

#[test]
fn adding_after_the_unlock_time_is_refused() {
    let mut app = proper_instantiate();
    deposit_rewards(&mut app, ADMIN, 500_000 * C4E_1);
    lock_funds(&mut app, USER_1, 10_000 * C4E_1);
    app.advance_time(31_536_000 + 1);
    let result = app.execute(USER_1, ExecuteMsg::Lock {}, &[10_000 * C4E_1]);
    assert!(matches!(result, Err(ContractError::PastLockupPeriod {})));
    assert_eq!(query_lockup(&app, USER_1).principal_amount.amount, 10_000 * C4E_1);
}

#[test]
fn unlock_before_the_unlock_time_is_refused() {
    let mut app = proper_instantiate();
    deposit_rewards(&mut app, ADMIN, 500_000 * C4E_1);
    lock_funds(&mut app, USER_1, 10_000 * C4E_1);
    let unlock_time = query_lockup(&app, USER_1).unlock_time;
    assert_eq!(unlock_time.nanos, GENESIS_NANOS + 31_536_000 * 1_000_000_000);
    app.advance_time(31_536_000 - 1);
    match app.execute(USER_1, ExecuteMsg::UnlockPrincipal {}, &[]) {
        Err(ContractError::StillLocked { unlock_time: t }) => assert_eq!(t, unlock_time),
        other => panic!("unexpected outcome {:?}", other),
    }
}

#[test]
fn claim_in_the_block_of_the_lock_is_refused() {
    let mut app = proper_instantiate();
    deposit_rewards(&mut app, ADMIN, 500_000 * C4E_1);
    lock_funds(&mut app, USER_1, 10_000 * C4E_1);
    assert_eq!(query_rewards(&app, USER_1).amount, 0);
    let result = app.execute(USER_1, ExecuteMsg::ClaimRewards {}, &[]);
    assert!(matches!(result, Err(ContractError::ZeroRewards {})));
}

#[test]
fn claim_beyond_the_reward_pool_is_refused() {
    let mut app = proper_instantiate();
    // exactly a month of the deposit's rewards at 2% + 10%
    deposit_rewards(&mut app, ADMIN, 100 * C4E_1);
    lock_funds(&mut app, USER_1, 10_000 * C4E_1);
    app.advance_time(31_536_000);
    let owed = query_rewards(&app, USER_1).amount;
    assert_eq!(owed, 200 * C4E_1);
    match app.execute(USER_1, ExecuteMsg::ClaimRewards {}, &[]) {
        Err(ContractError::CannotClaimRewards { claim_amount, claim_denom, available_amount, available_denom }) => {
            assert_eq!(claim_amount, owed);
            assert_eq!(available_amount, 0);
            assert_eq!(claim_denom, DENOM);
            assert_eq!(available_denom, DENOM);
        }
        other => panic!("unexpected outcome {:?}", other),
    }
}

#[test]
fn unlock_beyond_the_reward_pool_is_refused() {
    let mut app = proper_instantiate();
    deposit_rewards(&mut app, ADMIN, 100 * C4E_1);
    lock_funds(&mut app, USER_1, 10_000 * C4E_1);
    app.advance_time(31_536_000);
    match app.execute(USER_1, ExecuteMsg::UnlockPrincipal {}, &[]) {
        Err(ContractError::CannotClaimRewards { claim_amount, available_amount, .. }) => {
            assert_eq!(claim_amount, 200 * C4E_1);
            assert_eq!(available_amount, 0);
        }
        other => panic!("unexpected outcome {:?}", other),
    }
    assert_eq!(query_lockup(&app, USER_1).principal_amount.amount, 10_000 * C4E_1);
}

#[test]
fn lock_too_large_for_a_decimal_is_refused() {
    let mut app = proper_instantiate();
    app.config.tier_config.tier_4_limit = u128::MAX;
    let amount: u128 = 400_000_000_000_000_000_000;
    app.balances.insert(USER_1.to_string(), amount);
    let result = app.execute(USER_1, ExecuteMsg::Lock {}, &[amount]);
    assert!(matches!(result, Err(ContractError::InvalidPrincipalAmount {})));
}

#[test]
fn missing_lockup_is_not_found() {
    let mut app = proper_instantiate();
    deposit_rewards(&mut app, ADMIN, 500_000 * C4E_1);
    assert!(matches!(
        app.query(QueryMsg::GetLockup { address: USER_2.to_string() }),
        Err(lockup_contract::error::StdError::NotFound { .. })
    ));
    assert!(matches!(
        app.query(QueryMsg::GetClaimableRewards { address: USER_2.to_string() }),
        Err(lockup_contract::error::StdError::NotFound { .. })
    ));
    assert!(matches!(
        app.execute(USER_2, ExecuteMsg::ClaimRewards {}, &[]),
        Err(ContractError::Std(lockup_contract::error::StdError::NotFound { .. }))
    ));
    assert!(matches!(
        app.execute(USER_2, ExecuteMsg::UnlockPrincipal {}, &[]),
        Err(ContractError::Std(lockup_contract::error::StdError::NotFound { .. }))
    ));
}

#[test]
fn adding_to_a_lockup_pays_out_its_rewards() {
    let mut app = proper_instantiate();
    deposit_rewards(&mut app, ADMIN, 500_000 * C4E_1);
    lock_funds(&mut app, USER_1, 10_000 * C4E_1);
    app.advance_time(31_536_000 / 2);
    let owed = query_rewards(&app, USER_1).amount;
    assert_eq!(owed, 100 * C4E_1);
    let before = app.balance(USER_1);
    let response = app.execute(USER_1, ExecuteMsg::Lock {}, &[40_000 * C4E_1]).unwrap();
    assert_eq!(response.messages.len(), 1);
    let BankMsg::Send { to_address, amount } = &response.messages[0];
    assert_eq!(to_address, USER_1);
    assert_eq!(amount.len(), 1);
    assert_eq!(amount[0].amount, owed);
    assert_eq!(attributes(&response)[0], pair("rewards_auto_claimed", "100000000"));
    assert_eq!(app.balance(USER_1), before - 40_000 * C4E_1 + owed);
    let lockup = query_lockup(&app, USER_1);
    assert_eq!(lockup.principal_amount.amount, 50_000 * C4E_1);
    assert_eq!(lockup.annual_percentage_rate, dec(cosmwasm_std::Decimal::from_atomics(35u32, 3).unwrap()));
    assert_eq!(lockup.last_claim_time, app.env().block_time);
    assert_eq!(lockup.start_time.nanos, GENESIS_NANOS);
    assert_eq!(query_rewards(&app, USER_1).amount, 0);
}

#[test]
fn a_claim_leaves_other_lockups_alone() {
    let mut app = proper_instantiate();
    app.balances.insert(USER_2.to_string(), 1_000_000 * C4E_1);
    deposit_rewards(&mut app, ADMIN, 500_000 * C4E_1);
    lock_funds(&mut app, USER_1, 10_000 * C4E_1);
    lock_funds(&mut app, USER_2, 60_000 * C4E_1);
    app.advance_time(1000);
    let other_before = query_lockup(&app, USER_2);
    claim_rewards(&mut app, USER_1);
    let other_after = query_lockup(&app, USER_2);
    assert_eq!(other_before.principal_amount.amount, other_after.principal_amount.amount);
    assert_eq!(other_before.last_claim_time, other_after.last_claim_time);
    assert_eq!(other_before.annual_percentage_rate, other_after.annual_percentage_rate);
    assert_eq!(query_all_lockups(&app).lockups.len(), 2);
    assert_eq!(query_sum(&app).0, 2);
}

#[test]
fn available_rewards_stay_within_the_balance() {
    let mut app = proper_instantiate();
    deposit_rewards(&mut app, ADMIN, 1_000 * C4E_1);
    lock_funds(&mut app, USER_1, 10_000 * C4E_1);
    app.advance_time(31_536_000 / 4);
    let available = query_coin(&app, QueryMsg::GetDepositedRewards {}).amount;
    let pending = query_rewards(&app, USER_1).amount;
    assert_eq!(pending, 50 * C4E_1);
    assert_eq!(available, 1_000 * C4E_1 - pending);
    assert!(available <= app.balance(CONTRACT));
}

#[test]
fn nothing_is_pending_right_after_a_claim() {
    let mut app = proper_instantiate();
    deposit_rewards(&mut app, ADMIN, 500_000 * C4E_1);
    lock_funds(&mut app, USER_1, 100_000 * C4E_1);
    app.advance_time(31_536_000 + 31_536_000 / 2);
    let owed = query_rewards(&app, USER_1).amount;
    assert!(owed > 0);
    let response = app.execute(USER_1, ExecuteMsg::ClaimRewards {}, &[]).unwrap();
    assert_eq!(
        attributes(&response),
        vec![pair("method", "claim_rewards"), pair("owner", USER_1), pair("rewards_claimed", &owed.to_string())]
    );
    assert_eq!(query_rewards(&app, USER_1).amount, 0);
    assert_eq!(query_lockup(&app, USER_1).last_claim_time, app.env().block_time);
}
