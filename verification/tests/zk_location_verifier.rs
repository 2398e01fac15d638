use soroban_sdk::xdr::ToXdr;
use harvesta::common::{AccountId, Fault, Signers};
use harvesta::harvesta_errors::HarvestaError;
use harvesta::zk_location_verifier::{CachedProofResult, VerificationStatus, ZkLocationError, ZkLocationVerifier};

fn setup() -> (ZkLocationVerifier, AccountId) {
    let mut v = ZkLocationVerifier::new();
    let admin = AccountId(1);
    v.initialize(admin).unwrap();
    (v, admin)
}

fn commitment(seed: u8) -> [u8; 32] {
    [seed; 32]
}

fn proof_digest(seed: u8) -> [u8; 32] {
    [seed.wrapping_add(100); 32]
}

fn all() -> Signers {
    Signers::everyone()
}

fn zk_code(r: Result<(), Fault>) -> Option<u32> {
    r.unwrap_err().contract_code()
}

fn batch_code(r: Result<Vec<Option<CachedProofResult>>, Fault>) -> Option<u32> {
    r.unwrap_err().contract_code()
}

#[test]
fn test_submit_and_approve() {
    let (mut v, _) = setup();
    let farmer = AccountId(10);
    let c = commitment(1);
    v.submit_commitment(&all(), farmer, c, 1, 0).unwrap();
    let record = v.get_verification(c).unwrap();
    assert_eq!(record.status, VerificationStatus::Pending);
    assert!(!v.is_approved(c));
    let pd = proof_digest(1);
    assert_eq!(v.approve_location(&all(), c, pd, 1_700_000_000), Ok(None));
    assert!(v.is_approved(c));
    let record = v.get_verification(c).unwrap();
    assert_eq!(record.status, VerificationStatus::Approved);
    assert_eq!(record.verified_at, 1_700_000_000);
    assert_eq!(v.get_proof_digest(c).unwrap(), pd);
}

#[test]
fn test_submit_and_reject() {
    let (mut v, _) = setup();
    let c = commitment(2);
    v.submit_commitment(&all(), AccountId(10), c, 3, 0).unwrap();
    v.reject_location(&all(), c, 0).unwrap();
    let record = v.get_verification(c).unwrap();
    assert_eq!(record.status, VerificationStatus::Rejected);
    assert!(!v.is_approved(c));
}

#[test]
fn test_duplicate_commitment_rejected() {
    let (mut v, _) = setup();
    let c = commitment(3);
    v.submit_commitment(&all(), AccountId(10), c, 1, 0).unwrap();
    assert_eq!(zk_code(v.submit_commitment(&all(), AccountId(10), c, 1, 0)), Some(67));
}

#[test]
fn test_out_of_bounds_region_rejected() {
    let (mut v, _) = setup();
    assert_eq!(zk_code(v.submit_commitment(&all(), AccountId(10), commitment(4), 99, 0)), Some(65));
}

#[test]
fn test_double_approve_is_idempotent_via_cache() {
    let (mut v, _) = setup();
    let c = commitment(5);
    v.submit_commitment(&all(), AccountId(10), c, 2, 0).unwrap();
    let pd = proof_digest(5);
    v.approve_location(&all(), c, pd, 0).unwrap();
    assert_eq!(v.approve_location(&all(), c, pd, 0), Ok(Some(CachedProofResult::Approved)));
    assert_eq!(v.get_verification(c).unwrap().status, VerificationStatus::Approved);
}

#[test]
fn test_cache_miss_with_different_proof_digest_falls_through() {
    let (mut v, _) = setup();
    let c = commitment(50);
    v.submit_commitment(&all(), AccountId(10), c, 2, 0).unwrap();
    v.approve_location(&all(), c, proof_digest(50), 0).unwrap();
    let r = v.approve_location(&all(), c, proof_digest(51), 0);
    assert_eq!(r.unwrap_err().contract_code(), Some(69));
}

#[test]
fn test_double_reject_is_idempotent_via_cache() {
    let (mut v, _) = setup();
    let c = commitment(60);
    v.submit_commitment(&all(), AccountId(10), c, 3, 0).unwrap();
    v.reject_location(&all(), c, 0).unwrap();
    assert_eq!(v.reject_location(&all(), c, 0), Ok(Some(CachedProofResult::Rejected)));
    assert_eq!(v.get_verification(c).unwrap().status, VerificationStatus::Rejected);
}

#[test]
fn test_proof_cache_ttl_default_is_one_ledger() {
    let (v, _) = setup();
    assert_eq!(v.get_proof_cache_ttl(), 1);
}

#[test]
fn test_proof_cache_ttl_configurable_at_init() {
    let mut v = ZkLocationVerifier::new();
    v.initialize_with_cache_ttl(AccountId(1), 42).unwrap();
    assert_eq!(v.get_proof_cache_ttl(), 42);
}

#[test]
fn test_proof_cache_disabled_when_ttl_zero() {
    let mut v = ZkLocationVerifier::new();
    v.initialize_with_cache_ttl(AccountId(1), 0).unwrap();
    let c = commitment(70);
    v.submit_commitment(&all(), AccountId(10), c, 1, 0).unwrap();
    let pd = proof_digest(70);
    v.approve_location(&all(), c, pd, 0).unwrap();
    let r = v.approve_location(&all(), c, pd, 0);
    assert_eq!(r.unwrap_err().contract_code(), Some(69));
}

#[test]
fn test_nonexistent_commitment_returns_none() {
    let (v, _) = setup();
    assert!(v.get_verification(commitment(99)).is_none());
    assert!(!v.is_approved(commitment(99)));
}

#[test]
fn test_all_northern_nigeria_prefixes_accepted() {
    for i in 0..9u32 {
        let (mut v, _) = setup();
        let c = commitment(i as u8);
        v.submit_commitment(&all(), AccountId(10), c, i, 0).unwrap();
        assert_eq!(v.get_verification(c).unwrap().status, VerificationStatus::Pending);
    }
}

#[test]
fn test_no_proof_digest_before_approval() {
    let (mut v, _) = setup();
    let c = commitment(6);
    v.submit_commitment(&all(), AccountId(10), c, 1, 0).unwrap();
    assert!(v.get_proof_digest(c).is_none());
}

#[test]
fn test_batch_submit_two_commitments() {
    let (mut v, _) = setup();
    let f1 = AccountId(10);
    let f2 = AccountId(11);
    let c1 = commitment(20);
    let c2 = commitment(21);
    v.batch_submit_commitments(&all(), &vec![f1, f2], &vec![c1, c2], &vec![1, 2], 0).unwrap();
    let r1 = v.get_verification(c1).unwrap();
    let r2 = v.get_verification(c2).unwrap();
    assert_eq!(r1.status, VerificationStatus::Pending);
    assert_eq!(r2.status, VerificationStatus::Pending);
    assert_eq!(r1.farmer, f1);
    assert_eq!(r2.farmer, f2);
}

#[test]
fn test_batch_submit_max_ten_commitments() {
    let (mut v, _) = setup();
    let mut farmers = Vec::new();
    let mut commitments = Vec::new();
    let mut regions = Vec::new();
    for i in 0u8..10 {
        farmers.push(AccountId(100 + i as u64));
        commitments.push(commitment(30 + i));
        regions.push((i % 9) as u32);
    }
    v.batch_submit_commitments(&all(), &farmers, &commitments, &regions, 0).unwrap();
    for i in 0u8..10 {
        assert_eq!(v.get_verification(commitment(30 + i)).unwrap().status, VerificationStatus::Pending);
    }
}

#[test]
fn test_batch_submit_empty_rejected() {
    let (mut v, _) = setup();
    assert_eq!(zk_code(v.batch_submit_commitments(&all(), &vec![], &vec![], &vec![], 0)), Some(70));
}

#[test]
fn test_batch_submit_length_mismatch_rejected() {
    let (mut v, _) = setup();
    let r = v.batch_submit_commitments(&all(), &vec![AccountId(10)], &vec![commitment(40), commitment(41)], &vec![1], 0);
    assert_eq!(zk_code(r), Some(71));
}

#[test]
fn test_batch_submit_exceeds_max_size_rejected() {
    let (mut v, _) = setup();
    let mut farmers = Vec::new();
    let mut commitments = Vec::new();
    let mut regions = Vec::new();
    for i in 0u8..11 {
        farmers.push(AccountId(100 + i as u64));
        commitments.push(commitment(50 + i));
        regions.push(0u32);
    }
    assert_eq!(zk_code(v.batch_submit_commitments(&all(), &farmers, &commitments, &regions, 0)), Some(72));
}

#[test]
fn test_batch_submit_invalid_region_rejects_whole_batch() {
    let (mut v, _) = setup();
    let r = v.batch_submit_commitments(
        &all(),
        &vec![AccountId(10), AccountId(11)],
        &vec![commitment(60), commitment(61)],
        &vec![1, 99],
        0,
    );
    assert_eq!(zk_code(r), Some(65));
    assert!(v.get_verification(commitment(60)).is_none());
}

#[test]
fn test_batch_submit_duplicate_commitment_rejects_whole_batch() {
    let (mut v, _) = setup();
    let c = commitment(70);
    v.submit_commitment(&all(), AccountId(10), c, 1, 0).unwrap();
    let r = v.batch_submit_commitments(&all(), &vec![AccountId(11), AccountId(12)], &vec![c, commitment(71)], &vec![1, 1], 0);
    assert_eq!(zk_code(r), Some(67));
    assert!(v.get_verification(commitment(71)).is_none());
}

#[test]
fn test_batch_approve_two_commitments() {
    let (mut v, _) = setup();
    let c1 = commitment(80);
    let c2 = commitment(81);
    v.submit_commitment(&all(), AccountId(10), c1, 1, 0).unwrap();
    v.submit_commitment(&all(), AccountId(11), c2, 2, 0).unwrap();
    let pd1 = proof_digest(80);
    let pd2 = proof_digest(81);
    v.batch_approve_locations(&all(), &vec![c1, c2], &vec![pd1, pd2], 0).unwrap();
    assert!(v.is_approved(c1));
    assert!(v.is_approved(c2));
    assert_eq!(v.get_proof_digest(c1).unwrap(), pd1);
    assert_eq!(v.get_proof_digest(c2).unwrap(), pd2);
}

#[test]
fn test_batch_approve_ten_commitments() {
    let (mut v, _) = setup();
    let mut commitments = Vec::new();
    let mut digests = Vec::new();
    for i in 0u8..10 {
        let c = commitment(90 + i);
        v.submit_commitment(&all(), AccountId(100 + i as u64), c, (i % 9) as u32, 0).unwrap();
        commitments.push(c);
        digests.push(proof_digest(90 + i));
    }
    v.batch_approve_locations(&all(), &commitments, &digests, 0).unwrap();
    for i in 0u8..10 {
        assert!(v.is_approved(commitment(90 + i)));
    }
}

#[test]
fn test_batch_approve_empty_rejected() {
    let (mut v, _) = setup();
    assert_eq!(batch_code(v.batch_approve_locations(&all(), &vec![], &vec![], 0)), Some(70));
}

#[test]
fn test_batch_approve_length_mismatch_rejected() {
    let (mut v, _) = setup();
    let c = commitment(100);
    v.submit_commitment(&all(), AccountId(10), c, 1, 0).unwrap();
    assert_eq!(batch_code(v.batch_approve_locations(&all(), &vec![c], &vec![], 0)), Some(71));
}

#[test]
fn test_batch_approve_exceeds_max_size_rejected() {
    let (mut v, _) = setup();
    let mut commitments = Vec::new();
    let mut digests = Vec::new();
    for i in 0u8..11 {
        commitments.push(commitment(110 + i));
        digests.push(proof_digest(110 + i));
    }
    assert_eq!(batch_code(v.batch_approve_locations(&all(), &commitments, &digests, 0)), Some(72));
}

#[test]
fn test_batch_approve_unknown_commitment_rejects_whole_batch() {
    let (mut v, _) = setup();
    let c1 = commitment(120);
    let c2 = commitment(121);
    v.submit_commitment(&all(), AccountId(10), c1, 1, 0).unwrap();
    let r = v.batch_approve_locations(&all(), &vec![c1, c2], &vec![proof_digest(120), proof_digest(121)], 0);
    assert_eq!(batch_code(r), Some(68));
}

#[test]
fn test_batch_approve_atomicity_unknown_second_entry_leaves_first_unapproved() {
    let (mut v, _) = setup();
    let c1 = commitment(130);
    let c2 = commitment(131);
    v.submit_commitment(&all(), AccountId(10), c1, 1, 0).unwrap();
    assert!(!v.is_approved(c1));
    let r = v.batch_approve_locations(&all(), &vec![c1, c2], &vec![proof_digest(130), proof_digest(131)], 0);
    assert!(r.is_err());
    assert!(!v.is_approved(c1));
}

#[test]
fn test_batch_reject_two_commitments() {
    let (mut v, _) = setup();
    let c1 = commitment(140);
    let c2 = commitment(141);
    v.submit_commitment(&all(), AccountId(10), c1, 1, 0).unwrap();
    v.submit_commitment(&all(), AccountId(11), c2, 2, 0).unwrap();
    v.batch_reject_locations(&all(), &vec![c1, c2], 0).unwrap();
    assert_eq!(v.get_verification(c1).unwrap().status, VerificationStatus::Rejected);
    assert_eq!(v.get_verification(c2).unwrap().status, VerificationStatus::Rejected);
    assert!(!v.is_approved(c1));
    assert!(!v.is_approved(c2));
}

#[test]
fn test_batch_reject_empty_rejected() {
    let (mut v, _) = setup();
    assert_eq!(batch_code(v.batch_reject_locations(&all(), &vec![], 0)), Some(70));
}

#[test]
fn test_batch_reject_exceeds_max_size_rejected() {
    let (mut v, _) = setup();
    let commitments: Vec<[u8; 32]> = (0u8..11).map(|i| commitment(150 + i)).collect();
    assert_eq!(batch_code(v.batch_reject_locations(&all(), &commitments, 0)), Some(72));
}

#[test]
fn test_batch_reject_unknown_commitment_rejects_whole_batch() {
    let (mut v, _) = setup();
    let c1 = commitment(160);
    v.submit_commitment(&all(), AccountId(10), c1, 1, 0).unwrap();
    let r = v.batch_reject_locations(&all(), &vec![c1, commitment(161)], 0);
    assert_eq!(batch_code(r), Some(68));
    assert_eq!(v.get_verification(c1).unwrap().status, VerificationStatus::Pending);
}

#[test]
fn test_batch_approve_idempotent_via_cache() {
    let (mut v, _) = setup();
    let c = commitment(170);
    let pd = proof_digest(170);
    v.submit_commitment(&all(), AccountId(10), c, 1, 0).unwrap();
    assert_eq!(v.batch_approve_locations(&all(), &vec![c], &vec![pd], 0), Ok(vec![None]));
    assert_eq!(v.batch_approve_locations(&all(), &vec![c], &vec![pd], 0), Ok(vec![Some(CachedProofResult::Approved)]));
    assert!(v.is_approved(c));
}

#[test]
fn test_individual_and_batch_submit_produce_same_state() {
    let (mut v, _) = setup();
    let c1 = commitment(180);
    let c2 = commitment(181);
    v.submit_commitment(&all(), AccountId(10), c1, 1, 0).unwrap();
    v.batch_submit_commitments(&all(), &vec![AccountId(11)], &vec![c2], &vec![1], 0).unwrap();
    assert_eq!(v.get_verification(c1).unwrap().status, VerificationStatus::Pending);
    assert_eq!(v.get_verification(c2).unwrap().status, VerificationStatus::Pending);
    assert_eq!(v.get_verification(c1).unwrap().region_index, 1);
    assert_eq!(v.get_verification(c2).unwrap().region_index, 1);
}

#[test]
fn zk_admin_must_sign_approvals() {
    let (mut v, admin) = setup();
    let c = commitment(7);
    v.submit_commitment(&all(), AccountId(10), c, 1, 0).unwrap();
    assert_eq!(v.approve_location(&Signers::only(vec![AccountId(10)]), c, proof_digest(7), 0), Err(Fault::Unauthorized(admin)));
    assert!(!v.is_approved(c));
}

#[test]
fn zk_farmer_must_sign_submission() {
    let (mut v, _) = setup();
    let farmer = AccountId(10);
    assert_eq!(v.submit_commitment(&Signers::only(vec![]), farmer, commitment(8), 1, 0), Err(Fault::Unauthorized(farmer)));
    let r = v.batch_submit_commitments(&Signers::only(vec![farmer]), &vec![farmer, AccountId(11)], &vec![commitment(8), commitment(9)], &vec![1, 1], 0);
    assert_eq!(r, Err(Fault::Unauthorized(AccountId(11))));
    assert!(v.get_verification(commitment(8)).is_none());
}

#[test]
fn zk_second_initialize_refused() {
    let (mut v, _) = setup();
    assert_eq!(v.initialize(AccountId(2)), Err(Fault::Shared(HarvestaError::AlreadyInitialized)));
}

#[test]
fn zk_uninitialised_approval_refused() {
    let mut v = ZkLocationVerifier::new();
    assert_eq!(v.approve_location(&all(), commitment(1), proof_digest(1), 0), Err(Fault::Shared(HarvestaError::NotInitialized)));
}

#[test]
fn zk_expired_cache_entry_falls_through() {
    let (mut v, _) = setup();
    let c = commitment(9);
    let pd = proof_digest(9);
    v.submit_commitment(&all(), AccountId(10), c, 1, 0).unwrap();
    v.approve_location(&all(), c, pd, 0).unwrap();
    v.expire_cached_result(ZkLocationVerifier::cache_key(&c, &pd));
    let r = v.approve_location(&all(), c, pd, 0);
    assert_eq!(r, Err(Fault::ZkLocation(ZkLocationError::CommitmentNotPending)));
}

#[test]
fn zk_cache_key_hashes_the_pair() {
    let c = commitment(1);
    let pd = proof_digest(1);
    let k = ZkLocationVerifier::cache_key(&c, &pd);
    assert_ne!(k, c);
    assert_ne!(k, pd);
    assert_ne!(k, ZkLocationVerifier::cache_key(&c, &proof_digest(2)));
    assert_eq!(k, ZkLocationVerifier::cache_key(&c, &pd));
    // SHA-256 over the XDR encodings of both values, as the host computes it.
    let env = soroban_sdk::Env::default();
    let mut buf = soroban_sdk::Bytes::new(&env);
    buf.append(&soroban_sdk::BytesN::from_array(&env, &c).to_xdr(&env));
    buf.append(&soroban_sdk::BytesN::from_array(&env, &pd).to_xdr(&env));
    assert_eq!(k, env.crypto().sha256(&buf).to_array());
}

#[test]
fn zk_batch_approve_matches_single_approvals() {
    let cs = [commitment(81), commitment(82), commitment(83)];
    let ds = [proof_digest(81), proof_digest(82), proof_digest(83)];
    let (mut batched, _) = setup();
    let (mut single, _) = setup();
    for (i, c) in cs.iter().enumerate() {
        batched.submit_commitment(&all(), AccountId(20 + i as u64), *c, i as u32, 5).unwrap();
        single.submit_commitment(&all(), AccountId(20 + i as u64), *c, i as u32, 5).unwrap();
    }
    let hits = batched.batch_approve_locations(&all(), &cs.to_vec(), &ds.to_vec(), 9).unwrap();
    assert_eq!(hits, vec![None, None, None]);
    for i in 0..3 {
        assert_eq!(single.approve_location(&all(), cs[i], ds[i], 9), Ok(None));
    }
    for i in 0..3 {
        assert_eq!(batched.get_verification(cs[i]), single.get_verification(cs[i]));
        assert_eq!(batched.get_proof_digest(cs[i]), Some(ds[i]));
        assert_eq!(single.get_proof_digest(cs[i]), Some(ds[i]));
        assert!(batched.is_approved(cs[i]));
        // Both now answer a replay of the pair from the cache.
        assert_eq!(batched.approve_location(&all(), cs[i], ds[i], 10), Ok(Some(CachedProofResult::Approved)));
        assert_eq!(single.approve_location(&all(), cs[i], ds[i], 10), Ok(Some(CachedProofResult::Approved)));
    }
}

#[test]
fn zk_batch_reject_matches_single_rejections() {
    let cs = [commitment(91), commitment(92)];
    let (mut batched, _) = setup();
    let (mut single, _) = setup();
    for c in cs.iter() {
        batched.submit_commitment(&all(), AccountId(30), *c, 4, 5).unwrap();
        single.submit_commitment(&all(), AccountId(30), *c, 4, 5).unwrap();
    }
    let hits = batched.batch_reject_locations(&all(), &cs.to_vec(), 7).unwrap();
    assert_eq!(hits, vec![None, None]);
    for c in cs.iter() {
        assert_eq!(single.reject_location(&all(), *c, 7), Ok(None));
    }
    for c in cs.iter() {
        assert_eq!(batched.get_verification(*c), single.get_verification(*c));
        assert_eq!(batched.get_verification(*c).unwrap().status, VerificationStatus::Rejected);
        assert_eq!(batched.get_proof_digest(*c), None);
        assert_eq!(batched.reject_location(&all(), *c, 8), Ok(Some(CachedProofResult::Rejected)));
    }
}

#[test]
fn zk_batch_submit_refuses_repeated_commitment() {
    let (mut v, _) = setup();
    let c = [9u8; 32];
    let r = v.batch_submit_commitments(&all(), &vec![AccountId(21), AccountId(22)], &vec![c, c], &vec![1, 2], 0);
    assert_eq!(r, Err(Fault::ZkLocation(ZkLocationError::CommitmentAlreadySubmitted)));
    assert_eq!(zk_code(r), Some(67));
    assert_eq!(v.get_verification(c), None);
}

#[test]
fn zk_batch_approve_refuses_commitment_settled_earlier_in_batch() {
    let (mut v, _) = setup();
    let c = [5u8; 32];
    v.submit_commitment(&all(), AccountId(20), c, 1, 0).unwrap();
    let r = v.batch_approve_locations(&all(), &vec![c, c], &vec![[1u8; 32], [2u8; 32]], 3);
    assert_eq!(r, Err(Fault::ZkLocation(ZkLocationError::CommitmentNotPending)));
    assert_eq!(batch_code(r), Some(69));
    assert_eq!(v.get_verification(c).unwrap().status, VerificationStatus::Pending);
    assert_eq!(v.get_proof_digest(c), None);
    let r = v.batch_reject_locations(&all(), &vec![c, c], 3);
    assert_eq!(r, Ok(vec![None, Some(CachedProofResult::Rejected)]));
}

#[test]
fn zk_batch_approve_same_pair_twice_hits_its_own_cache() {
    let (mut v, _) = setup();
    let c = [6u8; 32];
    v.submit_commitment(&all(), AccountId(20), c, 1, 0).unwrap();
    let r = v.batch_approve_locations(&all(), &vec![c, c], &vec![[1u8; 32], [1u8; 32]], 3);
    assert_eq!(r, Ok(vec![None, Some(CachedProofResult::Approved)]));
    assert!(v.is_approved(c));
}

#[test]
fn zk_reject_after_approval_with_zero_digest_is_refused() {
    let (mut v, _) = setup();
    let c = [7u8; 32];
    v.submit_commitment(&all(), AccountId(20), c, 1, 0).unwrap();
    assert_eq!(v.approve_location(&all(), c, [0u8; 32], 1), Ok(None));
    let r = v.reject_location(&all(), c, 1);
    assert_eq!(r, Err(Fault::ZkLocation(ZkLocationError::CommitmentNotPending)));
    assert_eq!(v.get_verification(c).unwrap().status, VerificationStatus::Approved);
}

#[test]
fn zk_expired_rejection_is_checked_afresh() {
    let (mut v, _) = setup();
    let c = [8u8; 32];
    v.submit_commitment(&all(), AccountId(20), c, 1, 0).unwrap();
    assert_eq!(v.reject_location(&all(), c, 1), Ok(None));
    assert_eq!(v.reject_location(&all(), c, 1), Ok(Some(CachedProofResult::Rejected)));
    v.expire_cached_rejection(ZkLocationVerifier::cache_key(&c, &[0u8; 32]));
    let r = v.reject_location(&all(), c, 2);
    assert_eq!(r, Err(Fault::ZkLocation(ZkLocationError::CommitmentNotPending)));
}

#[test]
fn zk_one_entry_batch_matches_single_submit() {
    let (mut batched, _) = setup();
    let (mut single, _) = setup();
    let c = [11u8; 32];
    batched.batch_submit_commitments(&all(), &vec![AccountId(30)], &vec![c], &vec![4], 12).unwrap();
    single.submit_commitment(&all(), AccountId(30), c, 4, 12).unwrap();
    assert_eq!(batched.get_verification(c), single.get_verification(c));
    assert_eq!(batched.get_proof_digest(c), None);
    assert_eq!(single.get_proof_digest(c), None);
}

#[test]
fn zk_batch_replay_within_cache_window_changes_nothing() {
    let (mut v, _) = setup();
    let cs = vec![[41u8; 32], [42u8; 32]];
    let ds = vec![[1u8; 32], [2u8; 32]];
    for c in cs.iter() {
        v.submit_commitment(&all(), AccountId(20), *c, 2, 0).unwrap();
    }
    assert_eq!(v.batch_approve_locations(&all(), &cs, &ds, 5), Ok(vec![None, None]));
    let before: Vec<_> = cs.iter().map(|c| (v.get_verification(*c), v.get_proof_digest(*c))).collect();
    assert_eq!(
        v.batch_approve_locations(&all(), &cs, &ds, 6),
        Ok(vec![Some(CachedProofResult::Approved), Some(CachedProofResult::Approved)])
    );
    let after: Vec<_> = cs.iter().map(|c| (v.get_verification(*c), v.get_proof_digest(*c))).collect();
    assert_eq!(before, after);
    assert!(cs.iter().all(|c| v.is_approved(*c)));
}
