use harvesta::common::{text_is, AccountId, Fault, Signers};
use harvesta::contract_utils::{add_to_whitelist, assert_whitelisted, is_whitelisted, remove_from_whitelist, Whitelist};
use harvesta::harvesta_errors::{FarmerError, GovernanceError, HarvestaError, NftError};
use harvesta::reentrancy::{ReentrancyError, ReentrancyGuard};

#[test]
fn reentrancy_second_acquire_is_refused() {
    let mut g = ReentrancyGuard::new();
    assert!(!g.is_locked());
    g.acquire().unwrap();
    assert!(g.is_locked());
    let e = g.acquire().unwrap_err();
    assert_eq!(e, Fault::Reentrancy(ReentrancyError::Reentrancy));
    assert_eq!(e.contract_code(), Some(200));
    assert!(g.is_locked());
}

#[test]
fn reentrancy_release_allows_next_acquire() {
    let mut g = ReentrancyGuard::new();
    g.acquire().unwrap();
    g.release();
    assert!(!g.is_locked());
    g.acquire().unwrap();
    assert!(g.is_locked());
}

#[test]
fn whitelist_add_check_remove() {
    let mut w = Whitelist::new();
    let a = AccountId(5);
    let b = AccountId(6);
    assert!(!is_whitelisted(&w, a));
    assert_eq!(assert_whitelisted(&w, a), Err(Fault::NotWhitelisted));
    add_to_whitelist(&mut w, a);
    assert!(is_whitelisted(&w, a));
    assert!(!is_whitelisted(&w, b));
    assert_eq!(assert_whitelisted(&w, a), Ok(()));
    add_to_whitelist(&mut w, a);
    remove_from_whitelist(&mut w, a);
    assert!(!is_whitelisted(&w, a));
    remove_from_whitelist(&mut w, b);
    assert!(!is_whitelisted(&w, b));
    assert_eq!(Fault::NotWhitelisted.contract_code(), None);
}

#[test]
fn signers_grant_only_listed_accounts() {
    let s = Signers::only(vec![AccountId(1), AccountId(3)]);
    assert_eq!(s.require_auth(AccountId(3)), Ok(()));
    assert_eq!(s.require_auth(AccountId(2)), Err(Fault::Unauthorized(AccountId(2))));
    assert_eq!(Signers::everyone().require_auth(AccountId(2)), Ok(()));
    assert_eq!(Signers::only(vec![]).require_auth(AccountId(1)), Err(Fault::Unauthorized(AccountId(1))));
}

#[test]
fn text_is_compares_exactly() {
    assert!(text_is(&"teak".to_string(), "teak"));
    assert!(!text_is(&"teak".to_string(), "tea"));
    assert!(!text_is(&"Teak".to_string(), "teak"));
}

#[test]
fn shared_error_codes() {
    assert_eq!(HarvestaError::AlreadyInitialized.code(), 1);
    assert_eq!(HarvestaError::NotInitialized.code(), 2);
    assert_eq!(HarvestaError::Unauthorized.code(), 3);
    assert_eq!(HarvestaError::RefundAfterPlanting.code(), 20);
    assert_eq!(HarvestaError::SurvivalRateOutOfRange.code(), 22);
    assert_eq!(HarvestaError::BatchTooLarge.code(), 29);
    assert_eq!(Fault::Shared(HarvestaError::NothingToRelease).contract_code(), Some(25));
}

#[test]
fn farmer_error_codes() {
    assert_eq!(FarmerError::FarmerAlreadyRegistered.code(), 1);
    assert_eq!(FarmerError::NotValidator.code(), 6);
    assert_eq!(FarmerError::LandTenureNotFound.code(), 10);
    assert_eq!(Fault::Farmer(FarmerError::FarmerFrozen).contract_code(), Some(8));
}

#[test]
fn governance_and_nft_error_codes() {
    assert_eq!(GovernanceError::NotAdmin.code(), 1);
    assert_eq!(GovernanceError::SignerNotFound.code(), 11);
    assert_eq!(GovernanceError::NonceAlreadyUsed.code(), 93);
    assert_eq!(NftError::TokenAlreadyMinted.code(), 1);
    assert_eq!(NftError::MetadataMismatch.code(), 3);
    assert_eq!(HarvestaError::InvalidRegion.code(), 37);
    assert_eq!(HarvestaError::InvalidReplacementVersion.code(), 112);
}

#[test]
fn whitelist_follows_last_call_on_each_address() {
    let mut w = Whitelist::new();
    let a = AccountId(1);
    let b = AccountId(2);
    add_to_whitelist(&mut w, a);
    add_to_whitelist(&mut w, b);
    remove_from_whitelist(&mut w, a);
    add_to_whitelist(&mut w, a);
    remove_from_whitelist(&mut w, b);
    assert!(is_whitelisted(&w, a));
    assert!(!is_whitelisted(&w, b));
    assert_eq!(assert_whitelisted(&w, a), Ok(()));
    assert_eq!(assert_whitelisted(&w, b), Err(Fault::NotWhitelisted));
    assert!(!is_whitelisted(&w, AccountId(3)));
}
