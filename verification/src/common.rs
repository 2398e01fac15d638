//! Identities, invocation signatures and the failures every contract reports.

use vstd::prelude::*;
use crate::harvesta_errors::{FarmerError, HarvestaError};
use crate::carbon_dex;
use crate::kyc_attestation;
use crate::tree_registry;
use crate::zk_location_verifier::ZkLocationError;
use crate::reentrancy::ReentrancyError;

verus! {

/// Identity of a Stellar account or contract. Two identities denote the same
/// party exactly when they are equal.
#[derive(Clone, Copy, Debug, PartialEq, Eq, PartialOrd, Ord, Hash, Structural)]
pub struct AccountId(pub u64);

/// The parties whose signatures authorise the current invocation.
///
/// `all` stands for an environment in which every authorisation request is
/// granted (the host's "mock all auths" test mode).
#[derive(Debug)]
pub struct Signers {
    pub all: bool,
    pub accounts: Vec<AccountId>,
}

impl Signers {
    /// `account` has authorised this invocation.
    pub open spec fn authorizes(&self, account: AccountId) -> bool {
        self.all || self.accounts@.contains(account)
    }

    /// Every authorisation request succeeds.
    pub fn everyone() -> (s: Signers)
        ensures
            forall|a: AccountId| s.authorizes(a),
    {
        Signers { all: true, accounts: Vec::new() }
    }

    /// Exactly the listed accounts have signed.
    pub fn only(accounts: Vec<AccountId>) -> (s: Signers)
        ensures
            forall|a: AccountId| s.authorizes(a) <==> accounts@.contains(a),
    {
        Signers { all: false, accounts }
    }

    /// The check a contract performs before acting on behalf of `account`.
    pub fn require_auth(&self, account: AccountId) -> (r: Result<(), Fault>)
        ensures
            r is Ok <==> self.authorizes(account),
            r is Err ==> r == Err::<(), Fault>(Fault::Unauthorized(account)),
    {
        if self.all {
            return Ok(());
        }
        let mut i: usize = 0;
        while i < self.accounts.len()
            invariant
                0 <= i <= self.accounts.len(),
                !self.all,
                forall|j: int| 0 <= j < i ==> self.accounts@[j] != account,
            decreases self.accounts.len() - i,
        {
            if self.accounts[i].0 == account.0 {
                return Ok(());
            }
            i = i + 1;
        }
        Err(Fault::Unauthorized(account))
    }
}

/// Whether `text` spells exactly `literal`.
pub fn text_is(text: &String, literal: &str) -> (r: bool)
    ensures
        r == (text@ == literal@),
{
    let owned = literal.to_owned();
    *text == owned
}

/// Why an invocation was refused. Every refusal aborts the invocation and
/// leaves the contract state as it was.
#[derive(Clone, Copy, Debug, PartialEq, Eq, Structural)]
pub enum Fault {
    /// `account` had to authorise the invocation and did not.
    Unauthorized(AccountId),
    /// The admin-controls contract reports the platform as paused.
    PlatformPaused,
    /// The contract-utils whitelist does not hold the address.
    NotWhitelisted,
    /// An input is larger than the host can hash within its budget.
    BudgetExceeded,
    Shared(HarvestaError),
    Farmer(FarmerError),
    Dex(carbon_dex::Error),
    Kyc(kyc_attestation::Error),
    Tree(tree_registry::Error),
    ZkLocation(ZkLocationError),
    Reentrancy(ReentrancyError),
}

impl Fault {
    /// The contract error number the host reports, for refusals raised as
    /// contract errors; `None` for the others.
    pub fn contract_code(&self) -> (c: Option<u32>)
        ensures
            match *self {
                Fault::Shared(e) => c == Some(e.spec_code()),
                Fault::Farmer(e) => c == Some(e.spec_code()),
                Fault::Dex(e) => c == Some(e.spec_code()),
                Fault::Kyc(e) => c == Some(e.spec_code()),
                Fault::Tree(e) => c == Some(e.spec_code()),
                Fault::ZkLocation(e) => c == Some(e.spec_code()),
                Fault::Reentrancy(e) => c == Some(e.spec_code()),
                _ => c is None,
            },
    {
        match self {
            Fault::Shared(e) => Some(e.code()),
            Fault::Farmer(e) => Some(e.code()),
            Fault::Dex(e) => Some(e.code()),
            Fault::Kyc(e) => Some(e.code()),
            Fault::Tree(e) => Some(e.code()),
            Fault::ZkLocation(e) => Some(e.code()),
            Fault::Reentrancy(e) => Some(e.code()),
            _ => None,
        }
    }
}

} // verus!
