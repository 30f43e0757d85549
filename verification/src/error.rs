//! The errors the contract answers with, and their text.

use vstd::prelude::*;

use crate::math::{decimal_digits, timestamp_text, uint128_to_string, Timestamp};

verus! {

/// Errors of the storage layer that the contract's logic passes on.
#[derive(Debug)]
pub enum StdError {
    /// The value looked up is not stored.
    NotFound { kind: String },
}

/// Why an execution was refused.
#[derive(Debug)]
pub enum ContractError {
    Std(StdError),
    Unauthorized {},
    ZeroAmount {},
    ZeroRewards {},
    DepositExceedsLimit {},
    DepositBelowMinimum {},
    PastLockupPeriod {},
    NoFundsForDeposit {},
    InvalidPrincipalAmount {},
    StillLocked { unlock_time: Timestamp },
    InvalidFunds { expected_denom: String },
    CannotClaimRewards {
        claim_amount: u128,
        claim_denom: String,
        available_amount: u128,
        available_denom: String,
    },
    InsufficientRewardFunds {
        available_amount: u128,
        available_denom: String,
        required_amount: u128,
        required_denom: String,
    },
}

/// The text of a storage error.
pub open spec fn std_error_text(e: StdError) -> Seq<char> {
    match e {
        StdError::NotFound { kind } => kind@ + " not found"@,
    }
}

/// The text of a contract error.
pub open spec fn error_text(e: ContractError) -> Seq<char> {
    match e {
        ContractError::Std(s) => std_error_text(s),
        ContractError::Unauthorized {  } => "Unauthorized"@,
        ContractError::ZeroAmount {  } => "Amount cannot be zero"@,
        ContractError::ZeroRewards {  } => "No rewards to claim at this time"@,
        ContractError::DepositExceedsLimit {  } => "Deposit exceeds maximum limit"@,
        ContractError::DepositBelowMinimum {  } => "Deposit below minimum required amount"@,
        ContractError::PastLockupPeriod {  } => "Past lockup period"@,
        ContractError::NoFundsForDeposit {  } => "No funds for deposit"@,
        ContractError::InvalidPrincipalAmount {  } => "Invalid principal amount"@,
        ContractError::StillLocked { unlock_time } => "Funds are still locked. Unlock time: "@
            + timestamp_text(unlock_time),
        ContractError::InvalidFunds { expected_denom } =>
            "Must send funds with the expected denomination: "@ + expected_denom@,
        ContractError::CannotClaimRewards {
            claim_amount,
            claim_denom,
            available_amount,
            available_denom,
        } => "Cannot claim rewards: to claim "@ + decimal_digits(claim_amount as nat) + " "@
            + claim_denom@ + ", available "@ + decimal_digits(available_amount as nat) + " "@
            + available_denom@ + ", please contact administrators."@,
        ContractError::InsufficientRewardFunds {
            available_amount,
            available_denom,
            required_amount,
            required_denom,
        } => "Insufficient reward funds: available "@ + decimal_digits(available_amount as nat)
            + " "@ + available_denom@ + ", required "@ + decimal_digits(required_amount as nat)
            + " "@ + required_denom@,
    }
}

impl StdError {
    /// The text of the error.
    pub fn message(&self) -> (s: String)
        ensures
            s@ == std_error_text(*self),
    {
        match self {
            StdError::NotFound { kind } => {
                let mut s = kind.clone();
                s.append(" not found");
                s
            },
        }
    }
}

impl ContractError {
    /// The text of the error.
    pub fn message(&self) -> (s: String)
        ensures
            s@ == error_text(*self),
    {
        match self {
            ContractError::Std(e) => e.message(),
            ContractError::Unauthorized {  } => "Unauthorized".to_owned(),
            ContractError::ZeroAmount {  } => "Amount cannot be zero".to_owned(),
            ContractError::ZeroRewards {  } => "No rewards to claim at this time".to_owned(),
            ContractError::DepositExceedsLimit {  } => "Deposit exceeds maximum limit".to_owned(),
            ContractError::DepositBelowMinimum {  } => "Deposit below minimum required amount".to_owned(),
            ContractError::PastLockupPeriod {  } => "Past lockup period".to_owned(),
            ContractError::NoFundsForDeposit {  } => "No funds for deposit".to_owned(),
            ContractError::InvalidPrincipalAmount {  } => "Invalid principal amount".to_owned(),
            ContractError::StillLocked { unlock_time } => {
                let mut s = "Funds are still locked. Unlock time: ".to_owned();
                let t = unlock_time.to_text();
                s.append(t.as_str());
                s
            },
            ContractError::InvalidFunds { expected_denom } => {
                let mut s = "Must send funds with the expected denomination: ".to_owned();
                s.append(expected_denom.as_str());
                s
            },
            ContractError::CannotClaimRewards {
                claim_amount,
                claim_denom,
                available_amount,
                available_denom,
            } => {
                let mut s = "Cannot claim rewards: to claim ".to_owned();
                let a = uint128_to_string(*claim_amount);
                s.append(a.as_str());
                s.append(" ");
                s.append(claim_denom.as_str());
                s.append(", available ");
                let b = uint128_to_string(*available_amount);
                s.append(b.as_str());
                s.append(" ");
                s.append(available_denom.as_str());
                s.append(", please contact administrators.");
                s
            },
            ContractError::InsufficientRewardFunds {
                available_amount,
                available_denom,
                required_amount,
                required_denom,
            } => {
                let mut s = "Insufficient reward funds: available ".to_owned();
                let a = uint128_to_string(*available_amount);
                s.append(a.as_str());
                s.append(" ");
                s.append(available_denom.as_str());
                s.append(", required ");
                let b = uint128_to_string(*required_amount);
                s.append(b.as_str());
                s.append(" ");
                s.append(required_denom.as_str());
                s
            },
        }
    }
}

} // verus!
