//! Location commitments checked against the Northern Nigeria boundary by an
//! off-chain zero-knowledge proof.
//!
//! A farmer commits to `SHA-256(lat || lon || nonce)` together with the
//! public two-character geohash prefix of the location (as an index into
//! `s0`..`s8`); the admin, acting for the off-chain verifier, approves or
//! rejects the commitment. Approval results are cached per (commitment,
//! proof digest) pair, and rejection results per commitment in a cache of
//! their own, for a configurable number of ledgers so that replays
//! short-circuit.

use vstd::prelude::*;
use crate::common::{AccountId, Fault, Signers};
use crate::crypto::{bytes32_to_xdr, lemma_bytes32_view_injective, sha256, sha256_digest, xdr_of_bytes32};
use crate::harvesta_errors::HarvestaError;
use crate::table::{bytes32_eq, Table};

verus! {

/// Refusals of the location verifier.
#[derive(Clone, Copy, Debug, PartialEq, Eq, PartialOrd, Ord, Structural)]
pub enum ZkLocationError {
    OutsideNigeriaRegion,
    CommitmentAlreadySubmitted,
    CommitmentNotFound,
    CommitmentNotPending,
    EmptyBatch,
    BatchLengthMismatch,
    BatchTooLarge,
}

impl ZkLocationError {
    /// The contract error number under which the host reports this error.
    pub open spec fn spec_code(&self) -> u32 {
        match self {
            ZkLocationError::OutsideNigeriaRegion => 65,
            ZkLocationError::CommitmentAlreadySubmitted => 67,
            ZkLocationError::CommitmentNotFound => 68,
            ZkLocationError::CommitmentNotPending => 69,
            ZkLocationError::EmptyBatch => 70,
            ZkLocationError::BatchLengthMismatch => 71,
            ZkLocationError::BatchTooLarge => 72,
        }
    }

    /// The contract error number under which the host reports this error.
    #[verifier::when_used_as_spec(spec_code)]
    pub fn code(&self) -> (c: u32)
        ensures
            c == self.spec_code(),
    {
        match self {
            ZkLocationError::OutsideNigeriaRegion => 65,
            ZkLocationError::CommitmentAlreadySubmitted => 67,
            ZkLocationError::CommitmentNotFound => 68,
            ZkLocationError::CommitmentNotPending => 69,
            ZkLocationError::EmptyBatch => 70,
            ZkLocationError::BatchLengthMismatch => 71,
            ZkLocationError::BatchTooLarge => 72,
        }
    }
}
/// Largest number of commitments one batch call may carry.
pub const MAX_BATCH_SIZE: u32 = 10;

/// Proof-cache time to live, in ledgers, when none is chosen at setup.
pub const DEFAULT_PROOF_CACHE_TTL_LEDGERS: u32 = 1;

/// Highest index of the approved geohash prefixes `s0`..`s8`.
pub const LAST_REGION_INDEX: u32 = 8;

/// Stage of a location commitment.
#[derive(Clone, Copy, Debug, PartialEq, Eq, Structural)]
pub enum VerificationStatus {
    /// Submitted, awaiting the off-chain proof check.
    Pending,
    /// The proof showed the location inside the Northern Nigeria boundary.
    Approved,
    /// Refused (location outside the boundary or proof invalid).
    Rejected,
}

/// Cached outcome for a (commitment, proof digest) pair.
#[derive(Clone, Copy, Debug, PartialEq, Eq, Structural)]
pub enum CachedProofResult {
    Approved,
    Rejected,
}

/// The record kept for one commitment.
#[derive(Clone, Copy, Debug, PartialEq, Eq, Structural)]
pub struct LocationVerification {
    /// The farmer who submitted the commitment.
    pub farmer: AccountId,
    /// Index into the approved geohash prefixes (0 = `s0` .. 8 = `s8`).
    pub region_index: u32,
    /// Ledger timestamp of the submission.
    pub submitted_at: u64,
    pub status: VerificationStatus,
    /// Ledger timestamp of the approval or rejection (0 while pending).
    pub verified_at: u64,
}

/// `region_index` names one of the approved Northern Nigeria prefixes.
pub open spec fn in_northern_nigeria(region_index: u32) -> bool {
    region_index <= LAST_REGION_INDEX
}

/// The record a fresh submission creates.
pub open spec fn pending_record(farmer: AccountId, region_index: u32, now: u64) -> LocationVerification {
    LocationVerification {
        farmer,
        region_index,
        submitted_at: now,
        status: VerificationStatus::Pending,
        verified_at: 0,
    }
}

/// `rec` moved to `status` at time `now`.
pub open spec fn settled(rec: LocationVerification, status: VerificationStatus, now: u64) -> LocationVerification {
    LocationVerification { status, verified_at: now, ..rec }
}

/// The bytes whose digest addresses the cached result of a (commitment,
/// proof digest) pair: `SHA-256(xdr(commitment) || xdr(proof_digest))`.
pub open spec fn proof_cache_key(commitment: Seq<u8>, proof_digest: Seq<u8>) -> Seq<u8> {
    sha256_digest(xdr_of_bytes32(commitment) + xdr_of_bytes32(proof_digest))
}

/// The cache slot of a (commitment, proof digest) pair.
pub open spec fn cache_slot(commitment: [u8; 32], proof_digest: [u8; 32]) -> [u8; 32] {
    choose|k: [u8; 32]| k@ == proof_cache_key(commitment@, proof_digest@)
}

/// The digest that, with a commitment, addresses its cached rejection in the
/// rejection cache: thirty-two zero bytes.
pub open spec fn no_digest() -> [u8; 32] {
    vstd::array::spec_array_fill_for_copy_type::<u8, 32>(0u8)
}

/// The first refusal met while checking the first `n` entries of a batch of
/// submissions against `records` and against the entries before each one.
pub open spec fn submit_batch_error(
    records: Map<[u8; 32], LocationVerification>,
    commitments: Seq<[u8; 32]>,
    regions: Seq<u32>,
    n: int,
) -> Option<ZkLocationError>
    decreases n,
{
    if n <= 0 {
        None
    } else {
        match submit_batch_error(records, commitments, regions, n - 1) {
            Some(e) => Some(e),
            None => if !in_northern_nigeria(regions[n - 1]) {
                Some(ZkLocationError::OutsideNigeriaRegion)
            } else if records.contains_key(commitments[n - 1])
                || commitments.subrange(0, n - 1).contains(commitments[n - 1]) {
                Some(ZkLocationError::CommitmentAlreadySubmitted)
            } else {
                None
            },
        }
    }
}

/// The first of the first `n` farmers who has not signed.
pub open spec fn first_unauthorized(signers: Signers, farmers: Seq<AccountId>, n: int) -> Option<AccountId>
    decreases n,
{
    if n <= 0 {
        None
    } else {
        match first_unauthorized(signers, farmers, n - 1) {
            Some(a) => Some(a),
            None => if !signers.authorizes(farmers[n - 1]) {
                Some(farmers[n - 1])
            } else {
                None
            },
        }
    }
}

/// `records` after the first `n` submissions of a batch, in order.
pub open spec fn records_after_submits(
    records: Map<[u8; 32], LocationVerification>,
    farmers: Seq<AccountId>,
    commitments: Seq<[u8; 32]>,
    regions: Seq<u32>,
    now: u64,
    n: int,
) -> Map<[u8; 32], LocationVerification>
    decreases n,
{
    if n <= 0 {
        records
    } else {
        records_after_submits(records, farmers, commitments, regions, now, n - 1).insert(
            commitments[n - 1],
            pending_record(farmers[n - 1], regions[n - 1], now),
        )
    }
}

/// The refusal, if any, of the shape of a batch: empty, of unequal lengths,
/// or longer than `MAX_BATCH_SIZE`.
pub open spec fn batch_shape_error(len: int, same_lengths: bool) -> Option<ZkLocationError> {
    if len == 0 {
        Some(ZkLocationError::EmptyBatch)
    } else if !same_lengths {
        Some(ZkLocationError::BatchLengthMismatch)
    } else if len > MAX_BATCH_SIZE {
        Some(ZkLocationError::BatchTooLarge)
    } else {
        None
    }
}

/// Commitment records, stored proof digests and cached results, together
/// with the cached results met so far by a run of approvals or rejections.
pub struct Settlement {
    pub records: Map<[u8; 32], LocationVerification>,
    pub proofs: Map<[u8; 32], [u8; 32]>,
    pub cache: Map<[u8; 32], CachedProofResult>,
    pub hits: Seq<Option<CachedProofResult>>,
}

/// The state a single approval or rejection starts from.
pub open spec fn settlement_of(
    records: Map<[u8; 32], LocationVerification>,
    proofs: Map<[u8; 32], [u8; 32]>,
    cache: Map<[u8; 32], CachedProofResult>,
) -> Settlement {
    Settlement { records, proofs, cache, hits: Seq::empty() }
}

/// One approval or rejection of `commitment` with `digest`. A result cached
/// under the pair's slot is reported and nothing changes. Otherwise the
/// commitment must be recorded and pending; it is settled to `status` at
/// `now`, `digest` is stored when `store_proof`, and `result` is cached
/// under the slot unless `ttl` is 0.
pub open spec fn settle_one(
    st: Settlement,
    commitment: [u8; 32],
    digest: [u8; 32],
    status: VerificationStatus,
    result: CachedProofResult,
    ttl: u32,
    store_proof: bool,
    now: u64,
) -> Result<Settlement, ZkLocationError> {
    let slot = cache_slot(commitment, digest);
    if st.cache.contains_key(slot) {
        Ok(Settlement { hits: st.hits.push(Some(st.cache[slot])), ..st })
    } else if !st.records.contains_key(commitment) {
        Err(ZkLocationError::CommitmentNotFound)
    } else if st.records[commitment].status != VerificationStatus::Pending {
        Err(ZkLocationError::CommitmentNotPending)
    } else {
        Ok(Settlement {
            records: st.records.insert(commitment, settled(st.records[commitment], status, now)),
            proofs: if store_proof { st.proofs.insert(commitment, digest) } else { st.proofs },
            cache: if ttl == 0 { st.cache } else { st.cache.insert(slot, result) },
            hits: st.hits.push(None),
        })
    }
}

/// The first `n` entries of a batch settled one after the other, each
/// against the state the entries before it left; the first refusal is the
/// batch's refusal.
pub open spec fn settle_all(
    st: Settlement,
    commitments: Seq<[u8; 32]>,
    digests: Seq<[u8; 32]>,
    status: VerificationStatus,
    result: CachedProofResult,
    ttl: u32,
    store_proof: bool,
    now: u64,
    n: int,
) -> Result<Settlement, ZkLocationError>
    decreases n,
{
    if n <= 0 {
        Ok(st)
    } else {
        match settle_all(st, commitments, digests, status, result, ttl, store_proof, now, n - 1) {
            Err(e) => Err(e),
            Ok(s) => settle_one(s, commitments[n - 1], digests[n - 1], status, result, ttl, store_proof, now),
        }
    }
}

/// `n` copies of the all-zero digest.
pub open spec fn zero_digests(n: nat) -> Seq<[u8; 32]> {
    Seq::new(n, |_i: int| no_digest())
}

/// A refusal met among the first entries of a batch of submissions is the
/// refusal of the whole batch.
pub proof fn lemma_submit_batch_error_stable(
    records: Map<[u8; 32], LocationVerification>,
    commitments: Seq<[u8; 32]>,
    regions: Seq<u32>,
    k: int,
    n: int,
)
    requires
        0 <= k <= n,
        submit_batch_error(records, commitments, regions, k) is Some,
    ensures
        submit_batch_error(records, commitments, regions, n) == submit_batch_error(records, commitments, regions, k),
    decreases n - k,
{
    if n > k {
        lemma_submit_batch_error_stable(records, commitments, regions, k, n - 1);
    }
}

/// The first unsigned farmer among the first entries stays the first.
pub proof fn lemma_first_unauthorized_stable(signers: Signers, farmers: Seq<AccountId>, k: int, n: int)
    requires
        0 <= k <= n,
        first_unauthorized(signers, farmers, k) is Some,
    ensures
        first_unauthorized(signers, farmers, n) == first_unauthorized(signers, farmers, k),
    decreases n - k,
{
    if n > k {
        lemma_first_unauthorized_stable(signers, farmers, k, n - 1);
    }
}

/// A refusal met among the first entries of a batch of approvals or
/// rejections is the refusal of the whole batch.
pub proof fn lemma_settle_all_err_stable(
    st: Settlement,
    commitments: Seq<[u8; 32]>,
    digests: Seq<[u8; 32]>,
    status: VerificationStatus,
    result: CachedProofResult,
    ttl: u32,
    store_proof: bool,
    now: u64,
    k: int,
    n: int,
)
    requires
        0 <= k <= n,
        settle_all(st, commitments, digests, status, result, ttl, store_proof, now, k) is Err,
    ensures
        settle_all(st, commitments, digests, status, result, ttl, store_proof, now, n)
            == settle_all(st, commitments, digests, status, result, ttl, store_proof, now, k),
    decreases n - k,
{
    if n > k {
        lemma_settle_all_err_stable(st, commitments, digests, status, result, ttl, store_proof, now, k, n - 1);
    }
}

/// A batch that passes all its entries passes every prefix of them, and the
/// results met by a prefix are the first results of the whole batch.
pub proof fn lemma_settle_all_prefix(
    st: Settlement,
    commitments: Seq<[u8; 32]>,
    digests: Seq<[u8; 32]>,
    status: VerificationStatus,
    result: CachedProofResult,
    ttl: u32,
    store_proof: bool,
    now: u64,
    i: int,
    n: int,
)
    requires
        0 <= i <= n,
        settle_all(st, commitments, digests, status, result, ttl, store_proof, now, n) is Ok,
    ensures
        settle_all(st, commitments, digests, status, result, ttl, store_proof, now, i) is Ok,
        (settle_all(st, commitments, digests, status, result, ttl, store_proof, now, i)->Ok_0).hits.len()
            == st.hits.len() + i,
        (settle_all(st, commitments, digests, status, result, ttl, store_proof, now, n)->Ok_0).hits.subrange(
            0, st.hits.len() + i) == (settle_all(st, commitments, digests, status, result, ttl, store_proof, now, i)->Ok_0).hits,
    decreases n,
{
    if n > 0 {
        let prev = settle_all(st, commitments, digests, status, result, ttl, store_proof, now, n - 1);
        if prev is Err {
            assert(settle_all(st, commitments, digests, status, result, ttl, store_proof, now, n) == prev);
        }
        lemma_settle_all_prefix(st, commitments, digests, status, result, ttl, store_proof, now, n - 1, n - 1);
        let sn = settle_all(st, commitments, digests, status, result, ttl, store_proof, now, n)->Ok_0;
        let sp = prev->Ok_0;
        assert(sn.hits == sp.hits.push(sn.hits.last()));
        assert(sn.hits.subrange(0, st.hits.len() + n - 1) =~= sp.hits);
        if i < n {
            lemma_settle_all_prefix(st, commitments, digests, status, result, ttl, store_proof, now, i, n - 1);
            assert(sn.hits.subrange(0, st.hits.len() + i) =~= sp.hits.subrange(0, st.hits.len() + i));
        } else {
            assert(sn.hits.subrange(0, st.hits.len() + i) =~= sn.hits);
        }
    }
}

/// Settling never adds or removes a commitment record, a stored digest
/// always belongs to a recorded commitment, and the cache holds only the
/// result being cached.
pub proof fn lemma_settle_all_keeps_domains(
    st: Settlement,
    commitments: Seq<[u8; 32]>,
    digests: Seq<[u8; 32]>,
    status: VerificationStatus,
    result: CachedProofResult,
    ttl: u32,
    store_proof: bool,
    now: u64,
    n: int,
)
    requires
        forall|k: [u8; 32]| #[trigger] st.proofs.contains_key(k) ==> st.records.contains_key(k),
        forall|k: [u8; 32]| #[trigger] st.cache.contains_key(k) ==> st.cache[k] == result,
        settle_all(st, commitments, digests, status, result, ttl, store_proof, now, n) is Ok,
    ensures
        ({
            let s = settle_all(st, commitments, digests, status, result, ttl, store_proof, now, n)->Ok_0;
            &&& s.records.dom() == st.records.dom()
            &&& forall|k: [u8; 32]| #[trigger] s.proofs.contains_key(k) ==> s.records.contains_key(k)
            &&& forall|k: [u8; 32]| #[trigger] s.cache.contains_key(k) ==> s.cache[k] == result
        }),
    decreases n,
{
    if n > 0 {
        let prev = settle_all(st, commitments, digests, status, result, ttl, store_proof, now, n - 1);
        if prev is Err {
            assert(settle_all(st, commitments, digests, status, result, ttl, store_proof, now, n) == prev);
        }
        lemma_settle_all_keeps_domains(st, commitments, digests, status, result, ttl, store_proof, now, n - 1);
        let sp = prev->Ok_0;
        let s = settle_all(st, commitments, digests, status, result, ttl, store_proof, now, n)->Ok_0;
        assert(s.records.dom() =~= sp.records.dom());
    }
}

/// The entries of `s` pushed with `x` are those of `s` and `x`.
pub proof fn lemma_push_contains(s: Seq<[u8; 32]>, x: [u8; 32])
    ensures
        forall|k: [u8; 32]| #[trigger] s.push(x).contains(k) <==> (s.contains(k) || k == x),
{
    assert forall|k: [u8; 32]| #[trigger] s.push(x).contains(k) <==> (s.contains(k) || k == x) by {
        if s.contains(k) {
            let j = choose|j: int| 0 <= j < s.len() && s[j] == k;
            assert(s.push(x)[j] == k);
        }
        if k == x {
            assert(s.push(x)[s.len() as int] == x);
        }
        if s.push(x).contains(k) {
            let j = choose|j: int| 0 <= j < s.len() + 1 && s.push(x)[j] == k;
            if j < s.len() {
                assert(s[j] == k);
            }
        }
    }
}

/// Whether `x` occurs among the first `upto` entries of `v`.
fn prefix_contains(v: &Vec<[u8; 32]>, upto: usize, x: &[u8; 32]) -> (r: bool)
    requires
        upto <= v@.len(),
    ensures
        r == v@.subrange(0, upto as int).contains(*x),
{
    let mut j: usize = 0;
    while j < upto
        invariant
            0 <= j <= upto,
            upto <= v@.len(),
            forall|k: int| 0 <= k < j ==> v@[k] != *x,
        decreases upto - j,
    {
        if bytes32_eq(&v[j], x) {
            assert(v@.subrange(0, upto as int)[j as int] == *x);
            return true;
        }
        j = j + 1;
    }
    assert(!v@.subrange(0, upto as int).contains(*x)) by {
        if v@.subrange(0, upto as int).contains(*x) {
            let k = choose|k: int| 0 <= k < upto && v@.subrange(0, upto as int)[k] == *x;
            assert(v@[k] == *x);
        }
    }
    false
}

/// Whether `x` occurs in `v`.
fn vec_contains(v: &Vec<[u8; 32]>, x: &[u8; 32]) -> (r: bool)
    ensures
        r == v@.contains(*x),
{
    let r = prefix_contains(v, v.len(), x);
    assert(v@.subrange(0, v@.len() as int) =~= v@);
    r
}

/// Rejections store no digests.
pub proof fn lemma_settle_all_keeps_proofs(
    st: Settlement,
    commitments: Seq<[u8; 32]>,
    digests: Seq<[u8; 32]>,
    status: VerificationStatus,
    result: CachedProofResult,
    ttl: u32,
    now: u64,
    n: int,
)
    requires
        settle_all(st, commitments, digests, status, result, ttl, false, now, n) is Ok,
    ensures
        (settle_all(st, commitments, digests, status, result, ttl, false, now, n)->Ok_0).proofs == st.proofs,
    decreases n,
{
    if n > 0 {
        let prev = settle_all(st, commitments, digests, status, result, ttl, false, now, n - 1);
        if prev is Err {
            assert(settle_all(st, commitments, digests, status, result, ttl, false, now, n) == prev);
        }
        lemma_settle_all_keeps_proofs(st, commitments, digests, status, result, ttl, now, n - 1);
    }
}

/// Settles the entries of a batch to `status` one after the other, caching
/// `result` and storing digests when `store_proofs`. All or nothing: every
/// entry is checked, against the state the entries before it would leave,
/// before anything is written.
fn settle_entries(
    records: &mut Table<[u8; 32], LocationVerification>,
    proofs: &mut Table<[u8; 32], [u8; 32]>,
    cache: &mut Table<[u8; 32], CachedProofResult>,
    ttl: u32,
    commitments: &Vec<[u8; 32]>,
    digests: &Vec<[u8; 32]>,
    status: VerificationStatus,
    result: CachedProofResult,
    store_proofs: bool,
    now: u64,
) -> (r: Result<Vec<Option<CachedProofResult>>, ZkLocationError>)
    requires
        old(records).wf(),
        old(proofs).wf(),
        old(cache).wf(),
        commitments@.len() == digests@.len(),
        status != VerificationStatus::Pending,
    ensures
        final(records).wf(),
        final(proofs).wf(),
        final(cache).wf(),
        match settle_all(settlement_of(old(records)@, old(proofs)@, old(cache)@), commitments@, digests@, status,
            result, ttl, store_proofs, now, commitments@.len() as int) {
            Err(e) => {
                &&& r == Err::<Vec<Option<CachedProofResult>>, ZkLocationError>(e)
                &&& *final(records) == *old(records)
                &&& *final(proofs) == *old(proofs)
                &&& *final(cache) == *old(cache)
            },
            Ok(s) => {
                &&& r matches Ok(h) && h@ == s.hits
                &&& final(records)@ == s.records
                &&& final(proofs)@ == s.proofs
                &&& final(cache)@ == s.cache
            },
        },
{
    let n = commitments.len();
    let ghost st0 = settlement_of(records@, proofs@, cache@);
    let mut hits: Vec<Option<CachedProofResult>> = Vec::new();
    let mut slots: Vec<[u8; 32]> = Vec::new();
    let mut settled_cs: Vec<[u8; 32]> = Vec::new();
    let mut new_slots: Vec<[u8; 32]> = Vec::new();
    let mut i: usize = 0;
    while i < n
        invariant
            0 <= i <= n,
            n == commitments@.len(),
            n == digests@.len(),
            status != VerificationStatus::Pending,
            records.wf(),
            proofs.wf(),
            cache.wf(),
            *records == *old(records),
            *proofs == *old(proofs),
            *cache == *old(cache),
            st0 == settlement_of(records@, proofs@, cache@),
            slots@.len() == i,
            forall|j: int| 0 <= j < i ==> #[trigger] slots@[j] == cache_slot(commitments@[j], digests@[j]),
            ttl == 0 ==> new_slots@.len() == 0,
            forall|k: [u8; 32]| #[trigger] settled_cs@.contains(k) ==> records@.contains_key(k),
            settle_all(st0, commitments@, digests@, status, result, ttl, store_proofs, now, i as int) is Ok,
            ({
                let s = settle_all(st0, commitments@, digests@, status, result, ttl, store_proofs, now, i as int)->Ok_0;
                &&& s.hits == hits@
                &&& forall|k: [u8; 32]| #[trigger] s.records.contains_key(k) == records@.contains_key(k)
                &&& forall|k: [u8; 32]| s.records.contains_key(k) ==> ((#[trigger] s.records[k]).status
                    == VerificationStatus::Pending) == (records@[k].status == VerificationStatus::Pending
                    && !settled_cs@.contains(k))
                &&& forall|k: [u8; 32]| #[trigger] s.cache.contains_key(k) == (cache@.contains_key(k) || new_slots@.contains(k))
                &&& forall|k: [u8; 32]| s.cache.contains_key(k) ==> #[trigger] s.cache[k]
                    == (if cache@.contains_key(k) { cache@[k] } else { result })
            }),
        decreases n - i,
    {
        let ghost s = settle_all(st0, commitments@, digests@, status, result, ttl, store_proofs, now, i as int)->Ok_0;
        let c = commitments[i];
        let slot = ZkLocationVerifier::cache_key(&c, &digests[i]);
        let ghost next = settle_one(s, c, digests@[i as int], status, result, ttl, store_proofs, now);
        assert(settle_all(st0, commitments@, digests@, status, result, ttl, store_proofs, now, i + 1) == next);
        match cache.get(&slot) {
            Some(v) => {
                hits.push(Some(*v));
            },
            None => {
                let in_batch = ttl > 0 && vec_contains(&new_slots, &slot);
                if in_batch {
                    hits.push(Some(result));
                } else {
                    assert(!s.cache.contains_key(slot));
                    if vec_contains(&settled_cs, &c) {
                        proof {
                            assert(next == Err::<Settlement, ZkLocationError>(ZkLocationError::CommitmentNotPending));
                            lemma_settle_all_err_stable(st0, commitments@, digests@, status, result, ttl, store_proofs, now, i + 1, n as int);
                        }
                        return Err(ZkLocationError::CommitmentNotPending);
                    }
                    match records.get(&c) {
                        None => {
                            proof {
                                lemma_settle_all_err_stable(st0, commitments@, digests@, status, result, ttl, store_proofs, now, i + 1, n as int);
                            }
                            return Err(ZkLocationError::CommitmentNotFound);
                        },
                        Some(rec) => {
                            if rec.status != VerificationStatus::Pending {
                                proof {
                                    lemma_settle_all_err_stable(st0, commitments@, digests@, status, result, ttl, store_proofs, now, i + 1, n as int);
                                }
                                return Err(ZkLocationError::CommitmentNotPending);
                            }
                        },
                    }
                    proof {
                        lemma_push_contains(settled_cs@, c);
                        if ttl > 0 {
                            lemma_push_contains(new_slots@, slot);
                        }
                    }
                    settled_cs.push(c);
                    if ttl > 0 {
                        new_slots.push(slot);
                    }
                    hits.push(None);
                }
            },
        }
        slots.push(slot);
        i = i + 1;
    }
    proof {
        lemma_settle_all_prefix(st0, commitments@, digests@, status, result, ttl, store_proofs, now, n as int, n as int);
    }
    let mut i: usize = 0;
    while i < n
        invariant
            0 <= i <= n,
            n == commitments@.len(),
            n == digests@.len(),
            n == slots@.len(),
            forall|j: int| 0 <= j < n ==> #[trigger] slots@[j] == cache_slot(commitments@[j], digests@[j]),
            records.wf(),
            proofs.wf(),
            cache.wf(),
            settle_all(st0, commitments@, digests@, status, result, ttl, store_proofs, now, n as int) is Ok,
            hits@ == (settle_all(st0, commitments@, digests@, status, result, ttl, store_proofs, now, n as int)->Ok_0).hits,
            st0.hits.len() == 0,
            hits@.len() == n,
            settle_all(st0, commitments@, digests@, status, result, ttl, store_proofs, now, i as int) is Ok,
            ({
                let s = settle_all(st0, commitments@, digests@, status, result, ttl, store_proofs, now, i as int)->Ok_0;
                &&& records@ == s.records
                &&& proofs@ == s.proofs
                &&& cache@ == s.cache
            }),
        decreases n - i,
    {
        proof {
            lemma_settle_all_prefix(st0, commitments@, digests@, status, result, ttl, store_proofs, now, i as int, n as int);
            lemma_settle_all_prefix(st0, commitments@, digests@, status, result, ttl, store_proofs, now, i + 1, n as int);
        }
        let ghost s = settle_all(st0, commitments@, digests@, status, result, ttl, store_proofs, now, i as int)->Ok_0;
        let ghost s1 = settle_all(st0, commitments@, digests@, status, result, ttl, store_proofs, now, i + 1)->Ok_0;
        assert(settle_all(st0, commitments@, digests@, status, result, ttl, store_proofs, now, i + 1)
            == settle_one(s, commitments@[i as int], digests@[i as int], status, result, ttl, store_proofs, now));
        assert(hits@[i as int] == s1.hits[i as int]) by {
            let sn = settle_all(st0, commitments@, digests@, status, result, ttl, store_proofs, now, n as int)->Ok_0;
            assert(sn.hits.subrange(0, i + 1)[i as int] == sn.hits[i as int]);
        }
        if hits[i].is_none() {
            let rec = *records.get(&commitments[i]).unwrap();
            let updated = LocationVerification { status, verified_at: now, ..rec };
            records.insert(commitments[i], updated);
            if store_proofs {
                proofs.insert(commitments[i], digests[i]);
            }
            if ttl > 0 {
                cache.insert(slots[i], result);
            }
        }
        i = i + 1;
    }
    Ok(hits)
}

/// Storage of the location verifier.
pub struct ZkLocationVerifier {
    admin: Option<AccountId>,
    cache_ttl: Option<u32>,
    records: Table<[u8; 32], LocationVerification>,
    proofs: Table<[u8; 32], [u8; 32]>,
    cache: Table<[u8; 32], CachedProofResult>,
    rejections: Table<[u8; 32], CachedProofResult>,
}

impl ZkLocationVerifier {
    /// The tables are well formed; every stored digest belongs to a recorded
    /// commitment; the approval cache holds approvals only and the rejection
    /// cache rejections only.
    pub closed spec fn wf(&self) -> bool {
        &&& self.records.wf()
        &&& self.proofs.wf()
        &&& self.cache.wf()
        &&& self.rejections.wf()
        &&& forall|k: [u8; 32]| #[trigger] self.proofs@.contains_key(k) ==> self.records@.contains_key(k)
        &&& forall|k: [u8; 32]| #[trigger] self.cache@.contains_key(k) ==> self.cache@[k] == CachedProofResult::Approved
        &&& forall|k: [u8; 32]| #[trigger] self.rejections@.contains_key(k) ==> self.rejections@[k] == CachedProofResult::Rejected
    }

    /// The admin (`None` before initialisation).
    pub closed spec fn spec_admin(&self) -> Option<AccountId> {
        self.admin
    }

    /// The proof-cache time to live in ledgers; 0 disables the cache.
    pub closed spec fn spec_cache_ttl(&self) -> u32 {
        match self.cache_ttl {
            Some(t) => t,
            None => DEFAULT_PROOF_CACHE_TTL_LEDGERS,
        }
    }

    /// Commitment records.
    pub closed spec fn spec_records(&self) -> Map<[u8; 32], LocationVerification> {
        self.records@
    }

    /// Proof digests stored at approval.
    pub closed spec fn spec_proofs(&self) -> Map<[u8; 32], [u8; 32]> {
        self.proofs@
    }

    /// Live cached approvals, by the slot of the (commitment, digest) pair.
    pub closed spec fn spec_cache(&self) -> Map<[u8; 32], CachedProofResult> {
        self.cache@
    }

    /// Live cached rejections, by the slot of the commitment with the
    /// all-zero digest.
    pub closed spec fn spec_rejection_cache(&self) -> Map<[u8; 32], CachedProofResult> {
        self.rejections@
    }

    /// Everything but the commitment records, proofs and cache is as in `other`.
    pub open spec fn same_config(&self, other: &Self) -> bool {
        &&& self.spec_admin() == other.spec_admin()
        &&& self.spec_cache_ttl() == other.spec_cache_ttl()
    }

    /// A freshly deployed contract with empty storage.
    pub fn new() -> (c: Self)
        ensures
            c.wf(),
            c.spec_admin() is None,
            c.spec_cache_ttl() == DEFAULT_PROOF_CACHE_TTL_LEDGERS,
            c.spec_records() == Map::<[u8; 32], LocationVerification>::empty(),
            c.spec_proofs() == Map::<[u8; 32], [u8; 32]>::empty(),
            c.spec_cache() == Map::<[u8; 32], CachedProofResult>::empty(),
            c.spec_rejection_cache() == Map::<[u8; 32], CachedProofResult>::empty(),
    {
        ZkLocationVerifier {
            admin: None,
            cache_ttl: None,
            records: Table::new(),
            proofs: Table::new(),
            cache: Table::new(),
            rejections: Table::new(),
        }
    }

    /// One-time setup with the default proof-cache time to live.
    pub fn initialize(&mut self, admin: AccountId) -> (r: Result<(), Fault>)
        requires
            old(self).wf(),
        ensures
            final(self).wf(),
            old(self).spec_admin() is Some ==> r == Err::<(), Fault>(Fault::Shared(HarvestaError::AlreadyInitialized)),
            old(self).spec_admin() is None ==> r is Ok,
            r is Err ==> *final(self) == *old(self),
            r is Ok ==> final(self).spec_admin() == Some(admin)
                && final(self).spec_cache_ttl() == DEFAULT_PROOF_CACHE_TTL_LEDGERS
                && final(self).spec_records() == old(self).spec_records()
                && final(self).spec_proofs() == old(self).spec_proofs()
                && final(self).spec_cache() == old(self).spec_cache()
                && final(self).spec_rejection_cache() == old(self).spec_rejection_cache(),
    {
        self.initialize_with_cache_ttl(admin, DEFAULT_PROOF_CACHE_TTL_LEDGERS)
    }

    /// One-time setup; `cache_ttl_ledgers` of 0 disables proof caching.
    pub fn initialize_with_cache_ttl(&mut self, admin: AccountId, cache_ttl_ledgers: u32) -> (r: Result<(), Fault>)
        requires
            old(self).wf(),
        ensures
            final(self).wf(),
            old(self).spec_admin() is Some ==> r == Err::<(), Fault>(Fault::Shared(HarvestaError::AlreadyInitialized)),
            old(self).spec_admin() is None ==> r is Ok,
            r is Err ==> *final(self) == *old(self),
            r is Ok ==> final(self).spec_admin() == Some(admin)
                && final(self).spec_cache_ttl() == cache_ttl_ledgers
                && final(self).spec_records() == old(self).spec_records()
                && final(self).spec_proofs() == old(self).spec_proofs()
                && final(self).spec_cache() == old(self).spec_cache()
                && final(self).spec_rejection_cache() == old(self).spec_rejection_cache(),
    {
        if self.admin.is_some() {
            return Err(Fault::Shared(HarvestaError::AlreadyInitialized));
        }
        self.admin = Some(admin);
        self.cache_ttl = Some(cache_ttl_ledgers);
        Ok(())
    }

    /// The configured proof-cache time to live in ledgers.
    pub fn get_proof_cache_ttl(&self) -> (r: u32)
        ensures
            r == self.spec_cache_ttl(),
    {
        match self.cache_ttl {
            Some(t) => t,
            None => DEFAULT_PROOF_CACHE_TTL_LEDGERS,
        }
    }

    /// The cache slot of a (commitment, proof digest) pair.
    pub fn cache_key(commitment: &[u8; 32], proof_digest: &[u8; 32]) -> (k: [u8; 32])
        ensures
            k@ == proof_cache_key(commitment@, proof_digest@),
            k == cache_slot(*commitment, *proof_digest),
    {
        let mut buf = bytes32_to_xdr(commitment);
        let tail = bytes32_to_xdr(proof_digest);
        let ghost head = buf@;
        let mut i: usize = 0;
        while i < tail.len()
            invariant
                0 <= i <= tail@.len(),
                buf@ == head + tail@.subrange(0, i as int),
            decreases tail@.len() - i,
        {
            buf.push(tail[i]);
            i = i + 1;
            assert(buf@ =~= head + tail@.subrange(0, i as int));
        }
        assert(tail@.subrange(0, tail@.len() as int) =~= tail@);
        let k = sha256(buf.as_slice());
        proof {
            let slot = proof_cache_key(commitment@, proof_digest@);
            assert(k@ == slot);
            let k2 = cache_slot(*commitment, *proof_digest);
            assert(k2@ == slot);
            lemma_bytes32_view_injective(k, k2);
        }
        k
    }

    /// The refusal, if any, of an admin-only entry point.
    fn check_admin(&self, signers: &Signers) -> (r: Result<(), Fault>)
        ensures
            match self.spec_admin() {
                None => r == Err::<(), Fault>(Fault::Shared(HarvestaError::NotInitialized)),
                Some(a) => (r is Ok <==> signers.authorizes(a)) && (r is Err ==> r == Err::<(), Fault>(Fault::Unauthorized(a))),
            },
    {
        match self.admin {
            None => Err(Fault::Shared(HarvestaError::NotInitialized)),
            Some(a) => signers.require_auth(a),
        }
    }

    /// Step one: `farmer` commits to a location without revealing it.
    pub fn submit_commitment(&mut self, signers: &Signers, farmer: AccountId, commitment: [u8; 32], region_index: u32, now: u64) -> (r: Result<(), Fault>)
        requires
            old(self).wf(),
        ensures
            final(self).wf(),
            !signers.authorizes(farmer) ==> r == Err::<(), Fault>(Fault::Unauthorized(farmer)),
            signers.authorizes(farmer) && !in_northern_nigeria(region_index)
                ==> r == Err::<(), Fault>(Fault::ZkLocation(ZkLocationError::OutsideNigeriaRegion)),
            signers.authorizes(farmer) && in_northern_nigeria(region_index) && old(self).spec_records().contains_key(commitment)
                ==> r == Err::<(), Fault>(Fault::ZkLocation(ZkLocationError::CommitmentAlreadySubmitted)),
            r is Ok <==> signers.authorizes(farmer) && in_northern_nigeria(region_index)
                && !old(self).spec_records().contains_key(commitment),
            r is Err ==> *final(self) == *old(self),
            r is Ok ==> {
                &&& final(self).spec_records() == old(self).spec_records().insert(commitment, pending_record(farmer, region_index, now))
                &&& final(self).spec_proofs() == old(self).spec_proofs()
                &&& !final(self).spec_proofs().contains_key(commitment)
                &&& final(self).spec_records().contains_key(commitment)
                &&& final(self).spec_records()[commitment] == (LocationVerification {
                    farmer,
                    region_index,
                    submitted_at: now,
                    status: VerificationStatus::Pending,
                    verified_at: 0,
                })
                &&& final(self).spec_cache() == old(self).spec_cache()
                &&& final(self).spec_rejection_cache() == old(self).spec_rejection_cache()
                &&& final(self).same_config(old(self))
            },
    {
        signers.require_auth(farmer)?;
        if region_index > LAST_REGION_INDEX {
            return Err(Fault::ZkLocation(ZkLocationError::OutsideNigeriaRegion));
        }
        if self.records.contains_key(&commitment) {
            return Err(Fault::ZkLocation(ZkLocationError::CommitmentAlreadySubmitted));
        }
        let record = LocationVerification {
            farmer,
            region_index,
            submitted_at: now,
            status: VerificationStatus::Pending,
            verified_at: 0,
        };
        self.records.insert(commitment, record);
        Ok(())
    }

    /// Step two: the admin approves a commitment after the off-chain proof
    /// check. A pair approved within the cache window returns its cached
    /// result without touching storage; otherwise returns `None`.
    pub fn approve_location(&mut self, signers: &Signers, commitment: [u8; 32], proof_digest: [u8; 32], now: u64) -> (r: Result<Option<CachedProofResult>, Fault>)
        requires
            old(self).wf(),
        ensures
            final(self).wf(),
            match old(self).spec_admin() {
                None => r == Err::<Option<CachedProofResult>, Fault>(Fault::Shared(HarvestaError::NotInitialized)),
                Some(a) => if !signers.authorizes(a) {
                    r == Err::<Option<CachedProofResult>, Fault>(Fault::Unauthorized(a))
                } else {
                    match settle_one(settlement_of(old(self).spec_records(), old(self).spec_proofs(), old(self).spec_cache()),
                        commitment, proof_digest, VerificationStatus::Approved, CachedProofResult::Approved,
                        old(self).spec_cache_ttl(), true, now) {
                        Err(e) => r == Err::<Option<CachedProofResult>, Fault>(Fault::ZkLocation(e)),
                        Ok(s) => {
                            &&& r == Ok::<Option<CachedProofResult>, Fault>(s.hits[0])
                            &&& final(self).spec_records() == s.records
                            &&& final(self).spec_proofs() == s.proofs
                            &&& final(self).spec_cache() == s.cache
                            &&& final(self).spec_rejection_cache() == old(self).spec_rejection_cache()
                        },
                    }
                },
            },
            r is Err ==> *final(self) == *old(self),
            r is Ok ==> forall|k: [u8; 32]| #[trigger] old(self).spec_records().contains_key(k)
                && old(self).spec_records()[k].status != VerificationStatus::Pending
                ==> final(self).spec_records().contains_key(k) && final(self).spec_records()[k] == old(self).spec_records()[k],
            (old(self).spec_admin() matches Some(a) && signers.authorizes(a))
                && old(self).spec_records().contains_key(commitment)
                && old(self).spec_records()[commitment].status != VerificationStatus::Pending
                && !old(self).spec_cache().contains_key(cache_slot(commitment, proof_digest))
                ==> r == Err::<Option<CachedProofResult>, Fault>(Fault::ZkLocation(ZkLocationError::CommitmentNotPending)),
            r == Ok::<Option<CachedProofResult>, Fault>(None) ==> {
                &&& old(self).spec_records().contains_key(commitment)
                &&& old(self).spec_records()[commitment].status == VerificationStatus::Pending
                &&& final(self).spec_records()[commitment] == (LocationVerification {
                    status: VerificationStatus::Approved,
                    verified_at: now,
                    ..old(self).spec_records()[commitment]
                })
                &&& final(self).spec_proofs().contains_key(commitment)
                &&& final(self).spec_proofs()[commitment] == proof_digest
            },
            final(self).same_config(old(self)),
    {
        self.check_admin(signers)?;
        let slot = Self::cache_key(&commitment, &proof_digest);
        match self.cache.get(&slot) {
            Some(cached) => {
                return Ok(Some(*cached));
            },
            None => {},
        }
        let rec = match self.records.get(&commitment) {
            Some(rec) => *rec,
            None => return Err(Fault::ZkLocation(ZkLocationError::CommitmentNotFound)),
        };
        if rec.status != VerificationStatus::Pending {
            return Err(Fault::ZkLocation(ZkLocationError::CommitmentNotPending));
        }
        let updated = LocationVerification { status: VerificationStatus::Approved, verified_at: now, ..rec };
        self.records.insert(commitment, updated);
        self.proofs.insert(commitment, proof_digest);
        if self.get_proof_cache_ttl() > 0 {
            self.cache.insert(slot, CachedProofResult::Approved);
        }
        Ok(None)
    }

    /// The admin rejects a commitment. Rejections are cached per commitment
    /// in the rejection cache; a cached rejection returns without touching
    /// storage.
    pub fn reject_location(&mut self, signers: &Signers, commitment: [u8; 32], now: u64) -> (r: Result<Option<CachedProofResult>, Fault>)
        requires
            old(self).wf(),
        ensures
            final(self).wf(),
            match old(self).spec_admin() {
                None => r == Err::<Option<CachedProofResult>, Fault>(Fault::Shared(HarvestaError::NotInitialized)),
                Some(a) => if !signers.authorizes(a) {
                    r == Err::<Option<CachedProofResult>, Fault>(Fault::Unauthorized(a))
                } else {
                    match settle_one(settlement_of(old(self).spec_records(), old(self).spec_proofs(), old(self).spec_rejection_cache()),
                        commitment, no_digest(), VerificationStatus::Rejected, CachedProofResult::Rejected,
                        old(self).spec_cache_ttl(), false, now) {
                        Err(e) => r == Err::<Option<CachedProofResult>, Fault>(Fault::ZkLocation(e)),
                        Ok(s) => {
                            &&& r == Ok::<Option<CachedProofResult>, Fault>(s.hits[0])
                            &&& final(self).spec_records() == s.records
                            &&& final(self).spec_proofs() == old(self).spec_proofs()
                            &&& final(self).spec_rejection_cache() == s.cache
                            &&& final(self).spec_cache() == old(self).spec_cache()
                        },
                    }
                },
            },
            r is Err ==> *final(self) == *old(self),
            r is Ok ==> forall|k: [u8; 32]| #[trigger] old(self).spec_records().contains_key(k)
                && old(self).spec_records()[k].status != VerificationStatus::Pending
                ==> final(self).spec_records().contains_key(k) && final(self).spec_records()[k] == old(self).spec_records()[k],
            (old(self).spec_admin() matches Some(a) && signers.authorizes(a))
                && old(self).spec_records().contains_key(commitment)
                && old(self).spec_records()[commitment].status != VerificationStatus::Pending
                && !old(self).spec_rejection_cache().contains_key(cache_slot(commitment, no_digest()))
                ==> r == Err::<Option<CachedProofResult>, Fault>(Fault::ZkLocation(ZkLocationError::CommitmentNotPending)),
            r == Ok::<Option<CachedProofResult>, Fault>(None) ==> {
                &&& old(self).spec_records().contains_key(commitment)
                &&& old(self).spec_records()[commitment].status == VerificationStatus::Pending
                &&& final(self).spec_records()[commitment] == (LocationVerification {
                    status: VerificationStatus::Rejected,
                    verified_at: now,
                    ..old(self).spec_records()[commitment]
                })
            },
            final(self).same_config(old(self)),
    {
        self.check_admin(signers)?;
        let zero: [u8; 32] = vstd::array::array_fill_for_copy_types::<u8, 32>(0u8);
        let slot = Self::cache_key(&commitment, &zero);
        match self.rejections.get(&slot) {
            Some(cached) => {
                return Ok(Some(*cached));
            },
            None => {},
        }
        let rec = match self.records.get(&commitment) {
            Some(rec) => *rec,
            None => return Err(Fault::ZkLocation(ZkLocationError::CommitmentNotFound)),
        };
        if rec.status != VerificationStatus::Pending {
            return Err(Fault::ZkLocation(ZkLocationError::CommitmentNotPending));
        }
        let updated = LocationVerification { status: VerificationStatus::Rejected, verified_at: now, ..rec };
        self.records.insert(commitment, updated);
        if self.get_proof_cache_ttl() > 0 {
            self.rejections.insert(slot, CachedProofResult::Rejected);
        }
        Ok(None)
    }

    /// Submit up to `MAX_BATCH_SIZE` commitments at once, each as
    /// `submit_commitment` would. All or nothing: every entry is checked
    /// before any is written, and any refusal leaves storage untouched.
    pub fn batch_submit_commitments(
        &mut self,
        signers: &Signers,
        farmers: &Vec<AccountId>,
        commitments: &Vec<[u8; 32]>,
        region_indices: &Vec<u32>,
        now: u64,
    ) -> (r: Result<(), Fault>)
        requires
            old(self).wf(),
        ensures
            final(self).wf(),
            ({
                let n = farmers@.len() as int;
                match batch_shape_error(n, n == commitments@.len() && n == region_indices@.len()) {
                    Some(e) => r == Err::<(), Fault>(Fault::ZkLocation(e)),
                    None => match submit_batch_error(old(self).spec_records(), commitments@, region_indices@, n) {
                        Some(e) => r == Err::<(), Fault>(Fault::ZkLocation(e)),
                        None => match first_unauthorized(*signers, farmers@, n) {
                            Some(a) => r == Err::<(), Fault>(Fault::Unauthorized(a)),
                            None => {
                                &&& r is Ok
                                &&& final(self).spec_records() == records_after_submits(
                                    old(self).spec_records(), farmers@, commitments@, region_indices@, now, n)
                                &&& forall|i: int| 0 <= i < n ==> !final(self).spec_proofs().contains_key(#[trigger] commitments@[i])
                                &&& forall|i: int| 0 <= i < n ==> final(self).spec_records().contains_key(#[trigger] commitments@[i])
                                    && final(self).spec_records()[commitments@[i]] == (LocationVerification {
                                        farmer: farmers@[i],
                                        region_index: region_indices@[i],
                                        submitted_at: now,
                                        status: VerificationStatus::Pending,
                                        verified_at: 0,
                                    })
                            },
                        },
                    },
                }
            }),
            r is Err ==> *final(self) == *old(self),
            final(self).spec_proofs() == old(self).spec_proofs(),
            final(self).spec_cache() == old(self).spec_cache(),
            final(self).spec_rejection_cache() == old(self).spec_rejection_cache(),
            final(self).same_config(old(self)),
    {
        let n = farmers.len();
        if n == 0 {
            return Err(Fault::ZkLocation(ZkLocationError::EmptyBatch));
        }
        if n != commitments.len() || n != region_indices.len() {
            return Err(Fault::ZkLocation(ZkLocationError::BatchLengthMismatch));
        }
        if n > MAX_BATCH_SIZE as usize {
            return Err(Fault::ZkLocation(ZkLocationError::BatchTooLarge));
        }
        let mut i: usize = 0;
        while i < n
            invariant
                0 <= i <= n,
                0 < n <= MAX_BATCH_SIZE,
                n == farmers@.len(),
                n == commitments@.len(),
                n == region_indices@.len(),
                self.wf(),
                *self == *old(self),
                submit_batch_error(self.spec_records(), commitments@, region_indices@, i as int) is None,
            decreases n - i,
        {
            if region_indices[i] > LAST_REGION_INDEX {
                proof {
                    assert(submit_batch_error(self.spec_records(), commitments@, region_indices@, i + 1)
                        == Some(ZkLocationError::OutsideNigeriaRegion));
                    lemma_submit_batch_error_stable(self.spec_records(), commitments@, region_indices@, i + 1, n as int);
                }
                return Err(Fault::ZkLocation(ZkLocationError::OutsideNigeriaRegion));
            }
            if self.records.contains_key(&commitments[i]) || prefix_contains(commitments, i, &commitments[i]) {
                proof {
                    assert(submit_batch_error(self.spec_records(), commitments@, region_indices@, i + 1)
                        == Some(ZkLocationError::CommitmentAlreadySubmitted));
                    lemma_submit_batch_error_stable(self.spec_records(), commitments@, region_indices@, i + 1, n as int);
                }
                return Err(Fault::ZkLocation(ZkLocationError::CommitmentAlreadySubmitted));
            }
            i = i + 1;
        }
        let mut i: usize = 0;
        while i < n
            invariant
                0 <= i <= n,
                0 < n <= MAX_BATCH_SIZE,
                n == farmers@.len(),
                n == commitments@.len(),
                n == region_indices@.len(),
                self.wf(),
                *self == *old(self),
                submit_batch_error(self.spec_records(), commitments@, region_indices@, n as int) is None,
                first_unauthorized(*signers, farmers@, i as int) is None,
            decreases n - i,
        {
            if signers.require_auth(farmers[i]).is_err() {
                proof {
                    assert(first_unauthorized(*signers, farmers@, i + 1) == Some(farmers@[i as int]));
                    lemma_first_unauthorized_stable(*signers, farmers@, i + 1, n as int);
                }
                return Err(Fault::Unauthorized(farmers[i]));
            }
            i = i + 1;
        }
        let ghost records0 = self.spec_records();
        let ghost old_self = *self;
        let mut i: usize = 0;
        while i < n
            invariant
                0 <= i <= n,
                n == farmers@.len(),
                n == commitments@.len(),
                n == region_indices@.len(),
                self.wf(),
                self.spec_records() == records_after_submits(records0, farmers@, commitments@, region_indices@, now, i as int),
                self.spec_proofs() == old_self.spec_proofs(),
                self.spec_cache() == old_self.spec_cache(),
                self.spec_rejection_cache() == old_self.spec_rejection_cache(),
                self.same_config(&old_self),
                old_self.wf(),
                records0 == old_self.spec_records(),
                submit_batch_error(records0, commitments@, region_indices@, n as int) is None,
            decreases n - i,
        {
            let record = LocationVerification {
                farmer: farmers[i],
                region_index: region_indices[i],
                submitted_at: now,
                status: VerificationStatus::Pending,
                verified_at: 0,
            };
            self.records.insert(commitments[i], record);
            i = i + 1;
        }
        proof {
            law_batch_submission_records_each_entry(records0, farmers@, commitments@, region_indices@, now);
            lemma_submit_batch_passes(records0, commitments@, region_indices@, n as int);
            assert forall|i: int| 0 <= i < n implies !self.spec_proofs().contains_key(#[trigger] commitments@[i]) by {
                assert(in_northern_nigeria(region_indices@[i]));
                assert(!records0.contains_key(commitments@[i]));
                assert(!old_self.proofs@.contains_key(commitments@[i]));
            }
        }
        Ok(())
    }

    /// Approve up to `MAX_BATCH_SIZE` commitments at once, each as
    /// `approve_location` would on the state the entries before it leave;
    /// entries with a cached result short-circuit and report it. All or
    /// nothing: any refusal leaves storage untouched.
    pub fn batch_approve_locations(
        &mut self,
        signers: &Signers,
        commitments: &Vec<[u8; 32]>,
        proof_digests: &Vec<[u8; 32]>,
        now: u64,
    ) -> (r: Result<Vec<Option<CachedProofResult>>, Fault>)
        requires
            old(self).wf(),
        ensures
            final(self).wf(),
            ({
                let n = commitments@.len() as int;
                match old(self).spec_admin() {
                    None => r == Err::<Vec<Option<CachedProofResult>>, Fault>(Fault::Shared(HarvestaError::NotInitialized)),
                    Some(a) => if !signers.authorizes(a) {
                        r == Err::<Vec<Option<CachedProofResult>>, Fault>(Fault::Unauthorized(a))
                    } else {
                        match batch_shape_error(n, n == proof_digests@.len()) {
                            Some(e) => r == Err::<Vec<Option<CachedProofResult>>, Fault>(Fault::ZkLocation(e)),
                            None => match settle_all(
                                settlement_of(old(self).spec_records(), old(self).spec_proofs(), old(self).spec_cache()),
                                commitments@, proof_digests@, VerificationStatus::Approved, CachedProofResult::Approved,
                                old(self).spec_cache_ttl(), true, now, n) {
                                Err(e) => r == Err::<Vec<Option<CachedProofResult>>, Fault>(Fault::ZkLocation(e)),
                                Ok(s) => {
                                    &&& r matches Ok(hits) && hits@ == s.hits
                                    &&& final(self).spec_records() == s.records
                                    &&& final(self).spec_proofs() == s.proofs
                                    &&& final(self).spec_cache() == s.cache
                                    &&& final(self).spec_rejection_cache() == old(self).spec_rejection_cache()
                                },
                            },
                        }
                    },
                }
            }),
            r is Err ==> *final(self) == *old(self),
            r is Ok ==> forall|k: [u8; 32]| #[trigger] old(self).spec_records().contains_key(k)
                && old(self).spec_records()[k].status != VerificationStatus::Pending
                ==> final(self).spec_records().contains_key(k) && final(self).spec_records()[k] == old(self).spec_records()[k],
            final(self).same_config(old(self)),
    {
        self.check_admin(signers)?;
        let n = commitments.len();
        if n == 0 {
            return Err(Fault::ZkLocation(ZkLocationError::EmptyBatch));
        }
        if n != proof_digests.len() {
            return Err(Fault::ZkLocation(ZkLocationError::BatchLengthMismatch));
        }
        if n > MAX_BATCH_SIZE as usize {
            return Err(Fault::ZkLocation(ZkLocationError::BatchTooLarge));
        }
        let ttl = self.get_proof_cache_ttl();
        let ghost st0 = settlement_of(self.spec_records(), self.spec_proofs(), self.spec_cache());
        let settled = settle_entries(
            &mut self.records,
            &mut self.proofs,
            &mut self.cache,
            ttl,
            commitments,
            proof_digests,
            VerificationStatus::Approved,
            CachedProofResult::Approved,
            true,
            now,
        );
        match settled {
            Ok(hits) => {
                proof {
                    law_batch_keeps_settled_records(st0, commitments@, proof_digests@, VerificationStatus::Approved,
                        CachedProofResult::Approved, ttl, true, now, n as int);
                    lemma_settle_all_keeps_domains(st0, commitments@, proof_digests@, VerificationStatus::Approved,
                        CachedProofResult::Approved, ttl, true, now, n as int);
                }
                Ok(hits)
            },
            Err(e) => Err(Fault::ZkLocation(e)),
        }
    }

    /// Reject up to `MAX_BATCH_SIZE` commitments at once, each as
    /// `reject_location` would on the state the entries before it leave.
    /// All or nothing.
    pub fn batch_reject_locations(&mut self, signers: &Signers, commitments: &Vec<[u8; 32]>, now: u64) -> (r: Result<Vec<Option<CachedProofResult>>, Fault>)
        requires
            old(self).wf(),
        ensures
            final(self).wf(),
            ({
                let n = commitments@.len() as int;
                let zeros = zero_digests(commitments@.len());
                match old(self).spec_admin() {
                    None => r == Err::<Vec<Option<CachedProofResult>>, Fault>(Fault::Shared(HarvestaError::NotInitialized)),
                    Some(a) => if !signers.authorizes(a) {
                        r == Err::<Vec<Option<CachedProofResult>>, Fault>(Fault::Unauthorized(a))
                    } else {
                        match batch_shape_error(n, true) {
                            Some(e) => r == Err::<Vec<Option<CachedProofResult>>, Fault>(Fault::ZkLocation(e)),
                            None => match settle_all(
                                settlement_of(old(self).spec_records(), old(self).spec_proofs(), old(self).spec_rejection_cache()),
                                commitments@, zeros, VerificationStatus::Rejected, CachedProofResult::Rejected,
                                old(self).spec_cache_ttl(), false, now, n) {
                                Err(e) => r == Err::<Vec<Option<CachedProofResult>>, Fault>(Fault::ZkLocation(e)),
                                Ok(s) => {
                                    &&& r matches Ok(hits) && hits@ == s.hits
                                    &&& final(self).spec_records() == s.records
                                    &&& final(self).spec_proofs() == old(self).spec_proofs()
                                    &&& final(self).spec_rejection_cache() == s.cache
                                    &&& final(self).spec_cache() == old(self).spec_cache()
                                },
                            },
                        }
                    },
                }
            }),
            r is Err ==> *final(self) == *old(self),
            r is Ok ==> forall|k: [u8; 32]| #[trigger] old(self).spec_records().contains_key(k)
                && old(self).spec_records()[k].status != VerificationStatus::Pending
                ==> final(self).spec_records().contains_key(k) && final(self).spec_records()[k] == old(self).spec_records()[k],
            final(self).same_config(old(self)),
    {
        self.check_admin(signers)?;
        let n = commitments.len();
        if n == 0 {
            return Err(Fault::ZkLocation(ZkLocationError::EmptyBatch));
        }
        if n > MAX_BATCH_SIZE as usize {
            return Err(Fault::ZkLocation(ZkLocationError::BatchTooLarge));
        }
        let mut zeros: Vec<[u8; 32]> = Vec::new();
        let mut i: usize = 0;
        while i < n
            invariant
                0 <= i <= n,
                zeros@ == zero_digests(i as nat),
            decreases n - i,
        {
            zeros.push(vstd::array::array_fill_for_copy_types::<u8, 32>(0u8));
            i = i + 1;
            assert(zeros@ =~= zero_digests(i as nat));
        }
        let ttl = self.get_proof_cache_ttl();
        let ghost st0 = settlement_of(self.spec_records(), self.spec_proofs(), self.spec_rejection_cache());
        let settled = settle_entries(
            &mut self.records,
            &mut self.proofs,
            &mut self.rejections,
            ttl,
            commitments,
            &zeros,
            VerificationStatus::Rejected,
            CachedProofResult::Rejected,
            false,
            now,
        );
        match settled {
            Ok(hits) => {
                proof {
                    law_batch_keeps_settled_records(st0, commitments@, zeros@, VerificationStatus::Rejected,
                        CachedProofResult::Rejected, ttl, false, now, n as int);
                    lemma_settle_all_keeps_domains(st0, commitments@, zeros@, VerificationStatus::Rejected,
                        CachedProofResult::Rejected, ttl, false, now, n as int);
                    lemma_settle_all_keeps_proofs(st0, commitments@, zeros@, VerificationStatus::Rejected,
                        CachedProofResult::Rejected, ttl, now, n as int);
                }
                Ok(hits)
            },
            Err(e) => Err(Fault::ZkLocation(e)),
        }
    }

    /// The host drops a temporary cached approval once its time to live has
    /// run out; this applies that drop to `slot`.
    pub fn expire_cached_result(&mut self, slot: [u8; 32])
        requires
            old(self).wf(),
        ensures
            final(self).wf(),
            final(self).spec_cache() == old(self).spec_cache().remove(slot),
            final(self).spec_rejection_cache() == old(self).spec_rejection_cache(),
            final(self).spec_records() == old(self).spec_records(),
            final(self).spec_proofs() == old(self).spec_proofs(),
            final(self).same_config(old(self)),
    {
        self.cache.remove(&slot);
    }

    /// The host drops a temporary cached rejection once its time to live has
    /// run out; this applies that drop to `slot`.
    pub fn expire_cached_rejection(&mut self, slot: [u8; 32])
        requires
            old(self).wf(),
        ensures
            final(self).wf(),
            final(self).spec_rejection_cache() == old(self).spec_rejection_cache().remove(slot),
            final(self).spec_cache() == old(self).spec_cache(),
            final(self).spec_records() == old(self).spec_records(),
            final(self).spec_proofs() == old(self).spec_proofs(),
            final(self).same_config(old(self)),
    {
        self.rejections.remove(&slot);
    }

    /// The record of `commitment`, if submitted.
    pub fn get_verification(&self, commitment: [u8; 32]) -> (r: Option<LocationVerification>)
        requires
            self.wf(),
        ensures
            r == (if self.spec_records().contains_key(commitment) {
                Some(self.spec_records()[commitment])
            } else {
                None
            }),
    {
        match self.records.get(&commitment) {
            Some(rec) => Some(*rec),
            None => None,
        }
    }

    /// The proof digest stored when `commitment` was approved, if any.
    pub fn get_proof_digest(&self, commitment: [u8; 32]) -> (r: Option<[u8; 32]>)
        requires
            self.wf(),
        ensures
            r == (if self.spec_proofs().contains_key(commitment) {
                Some(self.spec_proofs()[commitment])
            } else {
                None
            }),
    {
        match self.proofs.get(&commitment) {
            Some(d) => Some(*d),
            None => None,
        }
    }

    /// Whether `commitment` has been approved.
    pub fn is_approved(&self, commitment: [u8; 32]) -> (r: bool)
        requires
            self.wf(),
        ensures
            r == (self.spec_records().contains_key(commitment)
                && self.spec_records()[commitment].status == VerificationStatus::Approved),
    {
        match self.records.get(&commitment) {
            Some(rec) => rec.status == VerificationStatus::Approved,
            None => false,
        }
    }
}


/// After the first `n` submissions of a batch, a commitment is recorded
/// exactly when it was recorded before or is among those `n`.
pub proof fn lemma_records_after_submits_keys(
    records: Map<[u8; 32], LocationVerification>,
    farmers: Seq<AccountId>,
    commitments: Seq<[u8; 32]>,
    regions: Seq<u32>,
    now: u64,
    n: int,
    k: [u8; 32],
)
    requires
        0 <= n <= commitments.len(),
    ensures
        records_after_submits(records, farmers, commitments, regions, now, n).contains_key(k)
            <==> (records.contains_key(k) || exists|j: int| 0 <= j < n && commitments[j] == k),
    decreases n,
{
    if n > 0 {
        lemma_records_after_submits_keys(records, farmers, commitments, regions, now, n - 1, k);
        if commitments[n - 1] == k {
            assert(exists|j: int| 0 <= j < n && commitments[j] == k);
        }
        if exists|j: int| 0 <= j < n && commitments[j] == k {
            let j = choose|j: int| 0 <= j < n && commitments[j] == k;
            if j < n - 1 {
                assert(exists|j: int| 0 <= j < n - 1 && commitments[j] == k);
            }
        }
    }
}

/// With no refusal over a batch of submissions, every entry names an
/// approved region and a commitment neither recorded nor named before it.
pub proof fn lemma_submit_batch_passes(
    records: Map<[u8; 32], LocationVerification>,
    commitments: Seq<[u8; 32]>,
    regions: Seq<u32>,
    n: int,
)
    requires
        submit_batch_error(records, commitments, regions, n) is None,
    ensures
        forall|i: int| 0 <= i < n ==> in_northern_nigeria(#[trigger] regions[i]) && !records.contains_key(commitments[i])
            && !commitments.subrange(0, i).contains(commitments[i]),
    decreases n,
{
    if n > 0 {
        lemma_submit_batch_passes(records, commitments, regions, n - 1);
    }
}

/// A batch submission that passes its checks is the same as submitting its
/// entries one by one: each single submission in turn would be accepted
/// (its region is approved and its commitment not yet recorded) and records
/// exactly the entry the batch records.
pub proof fn law_batch_submit_is_sequence_of_submits(
    records: Map<[u8; 32], LocationVerification>,
    farmers: Seq<AccountId>,
    commitments: Seq<[u8; 32]>,
    regions: Seq<u32>,
    now: u64,
)
    requires
        farmers.len() == commitments.len() && commitments.len() == regions.len(),
        submit_batch_error(records, commitments, regions, commitments.len() as int) is None,
    ensures
        forall|i: int| 0 <= i < commitments.len() ==> {
            &&& in_northern_nigeria(regions[i])
            &&& !(#[trigger] records_after_submits(records, farmers, commitments, regions, now, i)).contains_key(commitments[i])
            &&& records_after_submits(records, farmers, commitments, regions, now, i + 1)
                == records_after_submits(records, farmers, commitments, regions, now, i).insert(
                    commitments[i], pending_record(farmers[i], regions[i], now))
        },
{
    let n = commitments.len() as int;
    lemma_submit_batch_passes(records, commitments, regions, n);
    assert forall|i: int| 0 <= i < n implies
        !(#[trigger] records_after_submits(records, farmers, commitments, regions, now, i)).contains_key(commitments[i]) by {
        lemma_records_after_submits_keys(records, farmers, commitments, regions, now, i, commitments[i]);
        assert(in_northern_nigeria(regions[i]));
        assert(!records.contains_key(commitments[i]));
        assert(!commitments.subrange(0, i).contains(commitments[i]));
        if exists|j: int| 0 <= j < i && commitments[j] == commitments[i] {
            let j = choose|j: int| 0 <= j < i && commitments[j] == commitments[i];
            assert(commitments.subrange(0, i)[j] == commitments[i]);
        }
    }
}

/// A batch of one entry is accepted exactly when the single submission is,
/// checks the same signature, and records the same pending entry.
pub proof fn law_one_entry_batch_is_single_submit(
    records: Map<[u8; 32], LocationVerification>,
    signers: Signers,
    farmer: AccountId,
    commitment: [u8; 32],
    region_index: u32,
    now: u64,
)
    ensures
        submit_batch_error(records, seq![commitment], seq![region_index], 1) == (if !in_northern_nigeria(region_index) {
            Some(ZkLocationError::OutsideNigeriaRegion)
        } else if records.contains_key(commitment) {
            Some(ZkLocationError::CommitmentAlreadySubmitted)
        } else {
            None::<ZkLocationError>
        }),
        first_unauthorized(signers, seq![farmer], 1) == (if signers.authorizes(farmer) {
            None::<AccountId>
        } else {
            Some(farmer)
        }),
        records_after_submits(records, seq![farmer], seq![commitment], seq![region_index], now, 1)
            == records.insert(commitment, pending_record(farmer, region_index, now)),
{
    let cs = seq![commitment];
    let rs = seq![region_index];
    let fs = seq![farmer];
    assert(cs[0] == commitment);
    assert(rs[0] == region_index);
    assert(fs[0] == farmer);
    assert(!cs.subrange(0, 0).contains(commitment));
    assert(submit_batch_error(records, cs, rs, 0) is None);
    assert(first_unauthorized(signers, fs, 0) is None);
    assert(records_after_submits(records, fs, cs, rs, now, 0) == records);
}

/// Batch approvals and rejections are single ones in sequence: the state a
/// batch reaches after its first `i + 1` entries is the state its first `i`
/// entries reach followed by the single step `settle_one` of entry `i`,
/// which is the step by which `approve_location` and `reject_location`
/// state their effect.
pub proof fn law_batch_settlement_is_sequence_of_single_settlements(
    st: Settlement,
    commitments: Seq<[u8; 32]>,
    digests: Seq<[u8; 32]>,
    status: VerificationStatus,
    result: CachedProofResult,
    ttl: u32,
    store_proof: bool,
    now: u64,
    i: int,
)
    requires
        0 <= i,
    ensures
        settle_all(st, commitments, digests, status, result, ttl, store_proof, now, i + 1)
            == match settle_all(st, commitments, digests, status, result, ttl, store_proof, now, i) {
                Err(e) => Err(e),
                Ok(s) => settle_one(s, commitments[i], digests[i], status, result, ttl, store_proof, now),
            },
{
}

/// A fresh approval or rejection made while caching is enabled leaves its
/// result cached under the pair's slot, so replaying the same pair within
/// the cache window returns that result and changes nothing.
pub proof fn law_settled_pair_is_cached(
    st: Settlement,
    commitment: [u8; 32],
    digest: [u8; 32],
    status: VerificationStatus,
    result: CachedProofResult,
    ttl: u32,
    store_proof: bool,
    now: u64,
)
    requires
        ttl > 0,
        settle_one(st, commitment, digest, status, result, ttl, store_proof, now) is Ok,
        !st.cache.contains_key(cache_slot(commitment, digest)),
    ensures
        ({
            let s = settle_one(st, commitment, digest, status, result, ttl, store_proof, now)->Ok_0;
            &&& s.cache.contains_key(cache_slot(commitment, digest))
            &&& s.cache[cache_slot(commitment, digest)] == result
            &&& settle_one(s, commitment, digest, status, result, ttl, store_proof, now)
                == Ok::<Settlement, ZkLocationError>(Settlement { hits: s.hits.push(Some(result)), ..s })
        }),
{
}

/// With a time to live of zero nothing is ever cached, so replays are
/// checked afresh.
pub proof fn law_disabled_cache_stores_nothing(
    st: Settlement,
    commitment: [u8; 32],
    digest: [u8; 32],
    status: VerificationStatus,
    result: CachedProofResult,
    store_proof: bool,
    now: u64,
)
    requires
        settle_one(st, commitment, digest, status, result, 0, store_proof, now) is Ok,
    ensures
        (settle_one(st, commitment, digest, status, result, 0, store_proof, now)->Ok_0).cache == st.cache,
{
}

/// Approvals and rejections are cached apart: a rejection can only ever be
/// answered from the cache with a rejection, and an approval with an
/// approval.
pub proof fn law_caches_answer_in_kind(v: &ZkLocationVerifier)
    requires
        v.wf(),
    ensures
        forall|k: [u8; 32]| #[trigger] v.spec_rejection_cache().contains_key(k)
            ==> v.spec_rejection_cache()[k] == CachedProofResult::Rejected,
        forall|k: [u8; 32]| #[trigger] v.spec_cache().contains_key(k)
            ==> v.spec_cache()[k] == CachedProofResult::Approved,
{
}

/// A recorded commitment without a stored digest is exactly what a fresh
/// submission leaves: every stored digest belongs to a recorded commitment.
pub proof fn law_digests_belong_to_records(v: &ZkLocationVerifier, commitment: [u8; 32])
    requires
        v.wf(),
        v.spec_proofs().contains_key(commitment),
    ensures
        v.spec_records().contains_key(commitment),
{
}


/// Settling only adds cache entries, and with caching enabled every entry's
/// slot is cached afterwards.
pub proof fn lemma_settle_all_caches_every_slot(
    st: Settlement,
    commitments: Seq<[u8; 32]>,
    digests: Seq<[u8; 32]>,
    status: VerificationStatus,
    result: CachedProofResult,
    ttl: u32,
    store_proof: bool,
    now: u64,
    n: int,
)
    requires
        ttl > 0,
        0 <= n,
        settle_all(st, commitments, digests, status, result, ttl, store_proof, now, n) is Ok,
    ensures
        ({
            let s = settle_all(st, commitments, digests, status, result, ttl, store_proof, now, n)->Ok_0;
            &&& forall|k: [u8; 32]| #[trigger] st.cache.contains_key(k) ==> s.cache.contains_key(k)
            &&& forall|j: int| 0 <= j < n ==> s.cache.contains_key(#[trigger] cache_slot(commitments[j], digests[j]))
        }),
    decreases n,
{
    if n > 0 {
        let prev = settle_all(st, commitments, digests, status, result, ttl, store_proof, now, n - 1);
        if prev is Err {
            assert(settle_all(st, commitments, digests, status, result, ttl, store_proof, now, n) == prev);
        }
        lemma_settle_all_caches_every_slot(st, commitments, digests, status, result, ttl, store_proof, now, n - 1);
        let sp = prev->Ok_0;
        let s = settle_all(st, commitments, digests, status, result, ttl, store_proof, now, n)->Ok_0;
        assert forall|k: [u8; 32]| #[trigger] sp.cache.contains_key(k) implies s.cache.contains_key(k) by {}
        assert forall|j: int| 0 <= j < n implies s.cache.contains_key(#[trigger] cache_slot(commitments[j], digests[j])) by {
            if j < n - 1 {
                assert(sp.cache.contains_key(cache_slot(commitments[j], digests[j])));
            }
        }
    }
}

/// When every entry's slot is already cached, a batch meets only cached
/// results and changes nothing.
pub proof fn lemma_settle_all_all_hits(
    st: Settlement,
    commitments: Seq<[u8; 32]>,
    digests: Seq<[u8; 32]>,
    status: VerificationStatus,
    result: CachedProofResult,
    ttl: u32,
    store_proof: bool,
    now: u64,
    n: int,
)
    requires
        0 <= n,
        forall|j: int| 0 <= j < n ==> st.cache.contains_key(#[trigger] cache_slot(commitments[j], digests[j])),
    ensures
        settle_all(st, commitments, digests, status, result, ttl, store_proof, now, n) == Ok::<Settlement, ZkLocationError>(
            Settlement {
                hits: st.hits + Seq::new(n as nat, |j: int| Some(st.cache[cache_slot(commitments[j], digests[j])])),
                ..st
            }),
    decreases n,
{
    let f = |j: int| Some(st.cache[cache_slot(commitments[j], digests[j])]);
    if n == 0 {
        assert(st.hits + Seq::new(0, f) =~= st.hits);
    } else {
        lemma_settle_all_all_hits(st, commitments, digests, status, result, ttl, store_proof, now, n - 1);
        assert(st.cache.contains_key(cache_slot(commitments[n - 1], digests[n - 1])));
        assert((st.hits + Seq::new((n - 1) as nat, f)).push(f(n - 1)) =~= st.hits + Seq::new(n as nat, f));
    }
}

/// Replaying a batch that succeeded while caching is enabled, before its
/// cache entries expire, succeeds: every entry meets the result the batch
/// cached, and records, stored digests and cache are left exactly as the
/// first run left them. This holds for approvals and rejections alike.
pub proof fn law_batch_replay_within_cache_window(
    st: Settlement,
    commitments: Seq<[u8; 32]>,
    digests: Seq<[u8; 32]>,
    status: VerificationStatus,
    result: CachedProofResult,
    ttl: u32,
    store_proof: bool,
    now: u64,
    later: u64,
)
    requires
        ttl > 0,
        forall|k: [u8; 32]| #[trigger] st.proofs.contains_key(k) ==> st.records.contains_key(k),
        forall|k: [u8; 32]| #[trigger] st.cache.contains_key(k) ==> st.cache[k] == result,
        settle_all(st, commitments, digests, status, result, ttl, store_proof, now, commitments.len() as int) is Ok,
    ensures
        ({
            let n = commitments.len() as int;
            let s = settle_all(st, commitments, digests, status, result, ttl, store_proof, now, n)->Ok_0;
            settle_all(settlement_of(s.records, s.proofs, s.cache), commitments, digests, status, result, ttl,
                store_proof, later, n) == Ok::<Settlement, ZkLocationError>(Settlement {
                records: s.records,
                proofs: s.proofs,
                cache: s.cache,
                hits: Seq::new(n as nat, |_j: int| Some(result)),
            })
        }),
{
    let n = commitments.len() as int;
    let s = settle_all(st, commitments, digests, status, result, ttl, store_proof, now, n)->Ok_0;
    lemma_settle_all_caches_every_slot(st, commitments, digests, status, result, ttl, store_proof, now, n);
    lemma_settle_all_keeps_domains(st, commitments, digests, status, result, ttl, store_proof, now, n);
    let s0 = settlement_of(s.records, s.proofs, s.cache);
    lemma_settle_all_all_hits(s0, commitments, digests, status, result, ttl, store_proof, later, n);
    let f = |j: int| Some(s0.cache[cache_slot(commitments[j], digests[j])]);
    assert(s0.hits + Seq::new(n as nat, f) =~= Seq::new(n as nat, |_j: int| Some(result)));
}


/// A submission records the submitting farmer, the region, the time of
/// submission and a pending status, with no settlement time yet.
pub proof fn law_submission_records_its_time(farmer: AccountId, region_index: u32, now: u64)
    ensures
        pending_record(farmer, region_index, now).farmer == farmer,
        pending_record(farmer, region_index, now).region_index == region_index,
        pending_record(farmer, region_index, now).submitted_at == now,
        pending_record(farmer, region_index, now).status == VerificationStatus::Pending,
        pending_record(farmer, region_index, now).verified_at == 0,
{
}

/// After a batch of submissions, each submitted commitment that no later
/// entry names again holds the record of its own entry, stamped with the
/// batch's time; commitments outside the batch keep their records.
pub proof fn lemma_records_after_submits_entry(
    records: Map<[u8; 32], LocationVerification>,
    farmers: Seq<AccountId>,
    commitments: Seq<[u8; 32]>,
    regions: Seq<u32>,
    now: u64,
    n: int,
    i: int,
)
    requires
        0 <= i < n,
        forall|j: int| i < j < n ==> commitments[j] != commitments[i],
    ensures
        records_after_submits(records, farmers, commitments, regions, now, n).contains_key(commitments[i]),
        records_after_submits(records, farmers, commitments, regions, now, n)[commitments[i]]
            == pending_record(farmers[i], regions[i], now),
    decreases n,
{
    if n - 1 > i {
        lemma_records_after_submits_entry(records, farmers, commitments, regions, now, n - 1, i);
    }
}

/// A batch that passes its checks names no commitment twice, so every entry
/// is recorded with its own farmer and region, pending, at the batch's time.
pub proof fn law_batch_submission_records_each_entry(
    records: Map<[u8; 32], LocationVerification>,
    farmers: Seq<AccountId>,
    commitments: Seq<[u8; 32]>,
    regions: Seq<u32>,
    now: u64,
)
    requires
        submit_batch_error(records, commitments, regions, commitments.len() as int) is None,
    ensures
        forall|i: int| 0 <= i < commitments.len() ==> {
            let rec = #[trigger] records_after_submits(records, farmers, commitments, regions, now, commitments.len() as int)[commitments[i]];
            &&& records_after_submits(records, farmers, commitments, regions, now, commitments.len() as int).contains_key(commitments[i])
            &&& rec.farmer == farmers[i]
            &&& rec.region_index == regions[i]
            &&& rec.submitted_at == now
            &&& rec.status == VerificationStatus::Pending
            &&& rec.verified_at == 0
        },
{
    let n = commitments.len() as int;
    lemma_submit_batch_passes(records, commitments, regions, n);
    assert forall|i: int| 0 <= i < n implies {
        let rec = #[trigger] records_after_submits(records, farmers, commitments, regions, now, n)[commitments[i]];
        &&& records_after_submits(records, farmers, commitments, regions, now, n).contains_key(commitments[i])
        &&& rec.farmer == farmers[i]
        &&& rec.region_index == regions[i]
        &&& rec.submitted_at == now
        &&& rec.status == VerificationStatus::Pending
        &&& rec.verified_at == 0
    } by {
        assert forall|j: int| i < j < n implies commitments[j] != commitments[i] by {
            assert(in_northern_nigeria(regions[j]));
            assert(!commitments.subrange(0, j).contains(commitments[j]));
            if commitments[j] == commitments[i] {
                assert(commitments.subrange(0, j)[i] == commitments[j]);
            }
        }
        lemma_records_after_submits_entry(records, farmers, commitments, regions, now, n, i);
    }
}

/// Only a pending commitment can be settled: an approval or rejection of a
/// commitment that is already approved or rejected, and whose pair has no
/// cached result, is refused with `CommitmentNotPending`.
pub proof fn law_settled_commitment_is_refused(
    st: Settlement,
    commitment: [u8; 32],
    digest: [u8; 32],
    status: VerificationStatus,
    result: CachedProofResult,
    ttl: u32,
    store_proof: bool,
    now: u64,
)
    requires
        st.records.contains_key(commitment),
        st.records[commitment].status != VerificationStatus::Pending,
        !st.cache.contains_key(cache_slot(commitment, digest)),
    ensures
        settle_one(st, commitment, digest, status, result, ttl, store_proof, now)
            == Err::<Settlement, ZkLocationError>(ZkLocationError::CommitmentNotPending),
{
}

/// A settled record is final: no single approval or rejection changes the
/// record of a commitment that is no longer pending, so a rejected
/// commitment never becomes approved, nor an approved one rejected.
pub proof fn law_settled_records_are_final(
    st: Settlement,
    commitment: [u8; 32],
    digest: [u8; 32],
    status: VerificationStatus,
    result: CachedProofResult,
    ttl: u32,
    store_proof: bool,
    now: u64,
)
    requires
        settle_one(st, commitment, digest, status, result, ttl, store_proof, now) is Ok,
    ensures
        ({
            let s = settle_one(st, commitment, digest, status, result, ttl, store_proof, now)->Ok_0;
            &&& s.records.dom() == st.records.dom()
            &&& forall|k: [u8; 32]| #[trigger] st.records.contains_key(k)
                && st.records[k].status != VerificationStatus::Pending ==> s.records[k] == st.records[k]
            &&& forall|k: [u8; 32]| #[trigger] st.records.contains_key(k) && k != commitment ==> s.records[k] == st.records[k]
        }),
{
    let s = settle_one(st, commitment, digest, status, result, ttl, store_proof, now)->Ok_0;
    assert(s.records.dom() =~= st.records.dom());
}

/// The same holds of a whole batch: every record that was no longer pending
/// before the batch is unchanged after it.
pub proof fn law_batch_keeps_settled_records(
    st: Settlement,
    commitments: Seq<[u8; 32]>,
    digests: Seq<[u8; 32]>,
    status: VerificationStatus,
    result: CachedProofResult,
    ttl: u32,
    store_proof: bool,
    now: u64,
    n: int,
)
    requires
        settle_all(st, commitments, digests, status, result, ttl, store_proof, now, n) is Ok,
    ensures
        ({
            let s = settle_all(st, commitments, digests, status, result, ttl, store_proof, now, n)->Ok_0;
            &&& s.records.dom() == st.records.dom()
            &&& forall|k: [u8; 32]| #[trigger] st.records.contains_key(k)
                && st.records[k].status != VerificationStatus::Pending ==> s.records[k] == st.records[k]
        }),
    decreases n,
{
    if n > 0 {
        let prev = settle_all(st, commitments, digests, status, result, ttl, store_proof, now, n - 1);
        if prev is Err {
            assert(settle_all(st, commitments, digests, status, result, ttl, store_proof, now, n) == prev);
        }
        law_batch_keeps_settled_records(st, commitments, digests, status, result, ttl, store_proof, now, n - 1);
        let sp = prev->Ok_0;
        law_settled_records_are_final(sp, commitments[n - 1], digests[n - 1], status, result, ttl, store_proof, now);
    }
}

} // verus!
