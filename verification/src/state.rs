//! The values the contract stores: its configuration and the lockups.

use vstd::prelude::*;

use crate::math::{Decimal, Timestamp};

verus! {

/// An amount of one token denomination.
#[derive(Debug)]
pub struct Coin {
    pub denom: String,
    pub amount: u128,
}

impl Clone for Coin {
    fn clone(&self) -> (c: Self)
        ensures
            c == *self,
    {
        Coin { denom: self.denom.clone(), amount: self.amount }
    }
}

impl Coin {
    /// A coin of `amount` units of `denom`.
    pub fn new(amount: u128, denom: &String) -> (c: Coin)
        ensures
            c == (Coin { denom: *denom, amount }),
    {
        Coin { denom: denom.clone(), amount }
    }
}

/// The tiers of the lockup programme: the smallest deposit of each tier, the
/// largest deposit accepted, the base APR of each tier, and how the APR grows
/// with the years a lockup has been held.
#[derive(Debug, Clone, Copy, PartialEq, Eq, Structural)]
pub struct TierConfig {
    pub tier_1_min: u128,
    pub tier_2_min: u128,
    pub tier_3_min: u128,
    pub tier_4_min: u128,
    pub tier_4_limit: u128,
    pub tier_1_apr: Decimal,
    pub tier_2_apr: Decimal,
    pub tier_3_apr: Decimal,
    pub tier_4_apr: Decimal,
    pub percentage_increase_per_year: Decimal,
    pub max_percentage_increase: Decimal,
}

/// The contract's configuration, fixed at instantiation.
#[derive(Debug)]
pub struct Config {
    pub admins: Vec<String>,
    pub denom: String,
    pub lockup_duration_seconds: u64,
    pub tier_config: TierConfig,
}

impl Clone for Config {
    fn clone(&self) -> (c: Self)
        ensures
            c.admins@ == self.admins@,
            c.denom == self.denom,
            c.lockup_duration_seconds == self.lockup_duration_seconds,
            c.tier_config == self.tier_config,
    {
        let mut admins: Vec<String> = Vec::new();
        let mut i: usize = 0;
        while i < self.admins.len()
            invariant
                i <= self.admins@.len(),
                admins@ == self.admins@.subrange(0, i as int),
            decreases self.admins@.len() - i,
        {
            admins.push(self.admins[i].clone());
            i = i + 1;
        }
        Config {
            admins,
            denom: self.denom.clone(),
            lockup_duration_seconds: self.lockup_duration_seconds,
            tier_config: self.tier_config,
        }
    }
}

/// One owner's deposit.
#[derive(Debug)]
pub struct Lockup {
    pub owner: String,
    /// what is locked
    pub principal_amount: Coin,
    /// when the principal can be withdrawn
    pub unlock_time: Timestamp,
    /// the base APR of the lockup's tier
    pub annual_percentage_rate: Decimal,
    /// when rewards were last paid out (or the lockup was created)
    pub last_claim_time: Timestamp,
    /// when the lockup was first created
    pub start_time: Timestamp,
}

impl Clone for Lockup {
    fn clone(&self) -> (l: Self)
        ensures
            l == *self,
    {
        Lockup {
            owner: self.owner.clone(),
            principal_amount: self.principal_amount.clone(),
            unlock_time: self.unlock_time,
            annual_percentage_rate: self.annual_percentage_rate,
            last_claim_time: self.last_claim_time,
            start_time: self.start_time,
        }
    }
}

/// What the contract reads when it runs: its configuration, the stored
/// lockups in the order of their keys, and its own balance of the configured
/// denomination.
#[derive(Debug)]
pub struct State {
    pub config: Config,
    pub lockups: Vec<Lockup>,
    pub balance: u128,
}

/// No two lockups belong to the same owner.
pub open spec fn owners_distinct(lockups: Seq<Lockup>) -> bool {
    forall|i: int, j: int|
        0 <= i < lockups.len() && 0 <= j < lockups.len() && i != j ==> lockups[i].owner@
            != lockups[j].owner@
}

/// `i` is the position of the first lockup of `owner`.
pub open spec fn first_lockup_of(lockups: Seq<Lockup>, owner: Seq<char>, i: int) -> bool {
    &&& 0 <= i < lockups.len()
    &&& lockups[i].owner@ == owner
    &&& forall|j: int| 0 <= j < i ==> lockups[j].owner@ != owner
}

/// The position of the first lockup of `owner`, if there is one.
pub open spec fn spec_find_lockup(lockups: Seq<Lockup>, owner: Seq<char>) -> Option<int> {
    if exists|i: int| first_lockup_of(lockups, owner, i) {
        Some(choose|i: int| first_lockup_of(lockups, owner, i))
    } else {
        None
    }
}

/// A lockup of `owner` at `i` means there is a first one.
pub proof fn lemma_first_lockup_exists(lockups: Seq<Lockup>, owner: Seq<char>, i: int)
    requires
        0 <= i < lockups.len(),
        lockups[i].owner@ == owner,
    ensures
        exists|k: int| first_lockup_of(lockups, owner, k),
    decreases i,
{
    if forall|j: int| 0 <= j < i ==> lockups[j].owner@ != owner {
        assert(first_lockup_of(lockups, owner, i));
    } else {
        let j = choose|j: int| 0 <= j < i && lockups[j].owner@ == owner;
        lemma_first_lockup_exists(lockups, owner, j);
    }
}

/// Where the search finds nothing, no lockup belongs to `owner`; where it
/// finds a position, the lockup there belongs to `owner`.
pub proof fn lemma_find_lockup(lockups: Seq<Lockup>, owner: Seq<char>)
    ensures
        spec_find_lockup(lockups, owner) is None ==> forall|i: int|
            0 <= i < lockups.len() ==> lockups[i].owner@ != owner,
        spec_find_lockup(lockups, owner) matches Some(i) ==> first_lockup_of(lockups, owner, i),
{
    if spec_find_lockup(lockups, owner) is None {
        assert forall|i: int| 0 <= i < lockups.len() implies lockups[i].owner@ != owner by {
            if lockups[i].owner@ == owner {
                lemma_first_lockup_exists(lockups, owner, i);
            }
        }
    }
}

/// The position of the lockup of `owner` among `lockups`, if there is one.
pub fn find_lockup(lockups: &Vec<Lockup>, owner: &String) -> (r: Option<usize>)
    ensures
        match r {
            Some(i) => i < lockups@.len() && lockups@[i as int].owner@ == owner@ && forall|j: int|
                0 <= j < i ==> lockups@[j].owner@ != owner@,
            None => forall|j: int| 0 <= j < lockups@.len() ==> lockups@[j].owner@ != owner@,
        },
        r matches Some(i) ==> spec_find_lockup(lockups@, owner@) == Some(i as int),
        r is None ==> spec_find_lockup(lockups@, owner@) is None,
{
    let mut i: usize = 0;
    while i < lockups.len()
        invariant
            i <= lockups@.len(),
            forall|j: int| 0 <= j < i ==> lockups@[j].owner@ != owner@,
        decreases lockups@.len() - i,
    {
        if lockups[i].owner == *owner {
            proof {
                assert(first_lockup_of(lockups@, owner@, i as int));
                let k = choose|k: int| first_lockup_of(lockups@, owner@, k);
                if k < i {
                } else if k > i {
                    assert(lockups@[i as int].owner@ != owner@);
                }
            }
            return Some(i);
        }
        i = i + 1;
    }
    None
}

} // verus!
