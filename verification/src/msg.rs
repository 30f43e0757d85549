//! Messages the contract receives, what it answers, and the block context it
//! runs in.

use vstd::prelude::*;

use crate::math::{Decimal, Timestamp};
use crate::state::{Coin, Config, Lockup, TierConfig};

verus! {

/// The parameters the contract is created with.
#[derive(Debug)]
pub struct InstantiateMsg {
    /// the administrators; the creator when absent
    pub admins: Option<Vec<String>>,
    /// the token denomination of deposits and rewards
    pub denom: String,
    /// how long a new lockup stays locked, in seconds
    pub lockup_duration_seconds: u64,
    pub tier_config: TierConfig,
}

/// The executions the contract offers.
#[derive(Debug, Clone, Copy, PartialEq, Eq, Structural)]
pub enum ExecuteMsg {
    /// locks the funds sent with the message (or adds them to the sender's lockup)
    Lock {},
    /// pays out the principal and the pending rewards once the lockup period is over
    UnlockPrincipal {},
    /// pays out the accrued rewards without touching the principal
    ClaimRewards {},
    /// (administrators only) funds the reward pool
    DepositRewards {},
}

/// One lockup as the list of all lockups shows it.
#[derive(Debug)]
pub struct LockupInfo {
    pub address: String,
    pub start_time: Timestamp,
    pub principal_amount: u128,
    pub annual_percentage_rate: Decimal,
    pub tier: u8,
}

/// All lockups, in the order of their keys.
#[derive(Debug)]
pub struct AllLockupsResponse {
    pub lockups: Vec<LockupInfo>,
}

/// The queries the contract answers.
#[derive(Debug)]
pub enum QueryMsg {
    /// the configuration
    GetConfig {},
    /// the lockup of an address
    GetLockup { address: String },
    /// the rewards an address could claim now
    GetClaimableRewards { address: String },
    /// all lockups with their tiers
    GetAllLockups {},
    /// the funds available for rewards
    GetDepositedRewards {},
    /// the number of lockups and the sum of their principals
    GetSumLockupsAndDeposits {},
    /// the rewards all lockups earn in their first year
    GetAllRewards {},
    /// whether the funds available for rewards cover a year of rewards
    CheckCoinAvailability {},
}

/// The answer to a query.
#[derive(Debug)]
pub enum QueryResponse {
    Config(Config),
    Lockup(Lockup),
    Coin(Coin),
    AllLockups(AllLockupsResponse),
    SumLockupsAndDeposits(u128, Coin),
    Bool(bool),
}

/// The block an execution or query runs in.
#[derive(Debug, Clone, Copy)]
pub struct Env {
    pub block_time: Timestamp,
}

/// Who sent an execution, and the funds that came with it.
#[derive(Debug)]
pub struct MessageInfo {
    pub sender: String,
    pub funds: Vec<Coin>,
}

/// A key and value describing an execution.
#[derive(Debug)]
pub struct Attribute {
    pub key: String,
    pub value: String,
}

/// A transfer of coins out of the contract.
#[derive(Debug)]
pub enum BankMsg {
    Send { to_address: String, amount: Vec<Coin> },
}

/// What an execution asks the chain to do and how it describes itself.
#[derive(Debug)]
pub struct Response {
    pub messages: Vec<BankMsg>,
    pub attributes: Vec<Attribute>,
}

/// A transfer as its recipient and its coins.
pub open spec fn send_view(m: BankMsg) -> (String, Seq<Coin>) {
    match m {
        BankMsg::Send { to_address, amount } => (to_address, amount@),
    }
}

/// The transfers of a response.
pub open spec fn messages_view(r: Response) -> Seq<(String, Seq<Coin>)> {
    r.messages@.map_values(|m: BankMsg| send_view(m))
}

/// The attributes of a response as pairs of texts.
pub open spec fn attributes_view(r: Response) -> Seq<(Seq<char>, Seq<char>)> {
    r.attributes@.map_values(|a: Attribute| (a.key@, a.value@))
}

impl Response {
    /// A response with no transfers and no attributes.
    pub fn new() -> (r: Response)
        ensures
            messages_view(r) == Seq::<(String, Seq<Coin>)>::empty(),
            attributes_view(r) == Seq::<(Seq<char>, Seq<char>)>::empty(),
    {
        let r = Response { messages: Vec::new(), attributes: Vec::new() };
        assert(messages_view(r) =~= Seq::<(String, Seq<Coin>)>::empty());
        assert(attributes_view(r) =~= Seq::<(Seq<char>, Seq<char>)>::empty());
        r
    }

    /// The response with one more attribute.
    pub fn add_attribute(self, key: &str, value: String) -> (r: Response)
        ensures
            messages_view(r) == messages_view(self),
            attributes_view(r) == attributes_view(self).push((key@, value@)),
    {
        let mut r = self;
        let ghost before = r;
        r.attributes.push(Attribute { key: key.to_owned(), value });
        assert(messages_view(r) =~= messages_view(before));
        assert(attributes_view(r) =~= attributes_view(before).push((key@, value@)));
        r
    }

    /// The response with one more transfer.
    pub fn add_message(self, msg: BankMsg) -> (r: Response)
        ensures
            messages_view(r) == messages_view(self).push(send_view(msg)),
            attributes_view(r) == attributes_view(self),
    {
        let mut r = self;
        let ghost before = r;
        r.messages.push(msg);
        assert(messages_view(r) =~= messages_view(before).push(send_view(msg)));
        assert(attributes_view(r) =~= attributes_view(before));
        r
    }
}

} // verus!
