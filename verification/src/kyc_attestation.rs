//! KYC attestation for farmers, by registered verifiers, on two independent
//! paths: plain attestations kept as an append-only history, and ZK-proof
//! verification that checks a proof's public outputs (expiry, region
//! commitment) without storing personal data.

use vstd::prelude::*;
use crate::common::{text_is, AccountId, Fault, Signers};
use crate::crypto::{sha256, sha256_digest, MAX_HASH_INPUT_BYTES};
use crate::harvesta_errors::HarvestaError;
use crate::table::{Duplicate, Table};
use vstd::string::StringSliceAdditionalSpecFns;

verus! {

/// Minimum age the ZK circuit attests to.
pub const MIN_AGE_YEARS: u32 = 18;

/// Jurisdiction compliance flags.
pub const JURISDICTION_EU: u32 = 1;
pub const JURISDICTION_US: u32 = 2;
pub const JURISDICTION_UK: u32 = 4;
pub const JURISDICTION_APAC: u32 = 8;
pub const JURISDICTION_LATAM: u32 = 16;
pub const JURISDICTION_AFRICA: u32 = 32;

/// Refusals of the ZK-KYC path.
#[derive(Clone, Copy, Debug, PartialEq, Eq, PartialOrd, Ord, Structural)]
pub enum Error {
    CommitmentAlreadySubmitted,
    ProofExpired,
    OutsideNigeriaRegion,
    ZkProofInvalid,
}

impl Error {
    /// The contract error number under which the host reports this error.
    pub open spec fn spec_code(&self) -> u32 {
        match self {
            Error::CommitmentAlreadySubmitted => 1,
            Error::ProofExpired => 2,
            Error::OutsideNigeriaRegion => 3,
            Error::ZkProofInvalid => 4,
        }
    }

    /// The contract error number under which the host reports this error.
    #[verifier::when_used_as_spec(spec_code)]
    pub fn code(&self) -> (c: u32)
        ensures
            c == self.spec_code(),
    {
        match self {
            Error::CommitmentAlreadySubmitted => 1,
            Error::ProofExpired => 2,
            Error::OutsideNigeriaRegion => 3,
            Error::ZkProofInvalid => 4,
        }
    }
}
/// KYC standing of a farmer, shared by the attestation and ZK paths.
#[derive(Clone, Copy, Debug, PartialEq, Eq, Structural)]
pub enum KycStatus {
    Pending,
    Verified,
    Rejected,
}

/// One entry of a farmer's attestation history.
#[derive(Clone, Copy, Debug, PartialEq, Eq, Structural)]
pub struct Attestation {
    pub verifier: AccountId,
    pub status: KycStatus,
    pub timestamp: u64,
}

/// Public outputs of the off-chain ZK-KYC circuit.
#[derive(Debug, PartialEq, Eq)]
pub struct ZkProofInput {
    /// SHA-256 of the full proof artefact.
    pub proof_digest: [u8; 32],
    /// Commitment to the date of birth; identifies the proof's subject.
    pub age_commitment: [u8; 32],
    /// SHA-256 of the region prefix bytes.
    pub region_commitment: [u8; 32],
    /// The two-character geohash prefix, public and low precision.
    pub region_plaintext: String,
    /// Ledger timestamp after which the proof is expired.
    pub valid_until: u64,
}

/// The record written by a successful ZK verification.
#[derive(Debug, PartialEq, Eq)]
pub struct ZkKycRecord {
    pub farmer: AccountId,
    pub verifier: AccountId,
    /// SHA-256 of the proof digest, the on-chain integrity fingerprint.
    pub proof_integrity_hash: [u8; 32],
    pub age_commitment: [u8; 32],
    pub region_commitment: [u8; 32],
    pub verified_region: String,
    pub verified_at: u64,
    pub valid_until: u64,
}

impl View for ZkKycRecord {
    type V = ZkKycRecord;

    open spec fn view(&self) -> ZkKycRecord {
        *self
    }
}

impl Duplicate for ZkKycRecord {
    fn duplicate(&self) -> (r: ZkKycRecord) {
        ZkKycRecord {
            farmer: self.farmer,
            verifier: self.verifier,
            proof_integrity_hash: self.proof_integrity_hash,
            age_commitment: self.age_commitment,
            region_commitment: self.region_commitment,
            verified_region: self.verified_region.clone(),
            verified_at: self.verified_at,
            valid_until: self.valid_until,
        }
    }
}

/// `region` is one of the approved Northern Nigeria prefixes `s0`..`s8`.
pub open spec fn valid_region(region: Seq<char>) -> bool {
    ||| region == "s0"@
    ||| region == "s1"@
    ||| region == "s2"@
    ||| region == "s3"@
    ||| region == "s4"@
    ||| region == "s5"@
    ||| region == "s6"@
    ||| region == "s7"@
    ||| region == "s8"@
}

/// Whether `region` is one of the approved Northern Nigeria prefixes.
pub fn is_valid_region(region: &String) -> (r: bool)
    ensures
        r == valid_region(region@),
{
    text_is(region, "s0") || text_is(region, "s1") || text_is(region, "s2") || text_is(region, "s3")
        || text_is(region, "s4") || text_is(region, "s5") || text_is(region, "s6") || text_is(region, "s7")
        || text_is(region, "s8")
}

/// An approved region prefix is two ASCII characters, so two bytes long.
proof fn lemma_valid_region_bytes(s: &str)
    requires
        valid_region(s@),
    ensures
        s.spec_bytes().len() == 2,
{
    broadcast use vstd::string::is_ascii_spec_bytes;
    reveal_strlit("s0");
    reveal_strlit("s1");
    reveal_strlit("s2");
    reveal_strlit("s3");
    reveal_strlit("s4");
    reveal_strlit("s5");
    reveal_strlit("s6");
    reveal_strlit("s7");
    reveal_strlit("s8");
    assert(s@.len() == 2);
    assert(vstd::string::is_ascii(s));
}

/// The digest a region commitment must equal: SHA-256 of the region's UTF-8 bytes.
pub open spec fn region_digest(region: Seq<char>) -> Seq<u8> {
    sha256_digest(vstd::utf8::encode_utf8(region))
}

/// The refusal, if any, of a ZK verification of `proof` at time `now`,
/// given whether its age commitment was already used.
pub open spec fn zk_proof_error(proof: ZkProofInput, commitment_used: bool, now: u64) -> Option<Error> {
    if commitment_used {
        Some(Error::CommitmentAlreadySubmitted)
    } else if proof.valid_until <= now {
        Some(Error::ProofExpired)
    } else if !valid_region(proof.region_plaintext@) {
        Some(Error::OutsideNigeriaRegion)
    } else if proof.region_commitment@ != region_digest(proof.region_plaintext@) {
        Some(Error::ZkProofInvalid)
    } else {
        None
    }
}

/// The record a ZK verification of `proof` writes.
pub open spec fn zk_record_for(farmer: AccountId, verifier: AccountId, proof: ZkProofInput, integrity: [u8; 32], now: u64) -> ZkKycRecord {
    ZkKycRecord {
        farmer,
        verifier,
        proof_integrity_hash: integrity,
        age_commitment: proof.age_commitment,
        region_commitment: proof.region_commitment,
        verified_region: proof.region_plaintext,
        verified_at: now,
        valid_until: proof.valid_until,
    }
}

/// Storage of the KYC attestation contract.
pub struct KycAttestation {
    admin: Option<AccountId>,
    verifiers: Table<AccountId, bool>,
    statuses: Table<AccountId, KycStatus>,
    histories: Table<AccountId, Vec<Attestation>>,
    zk_statuses: Table<AccountId, KycStatus>,
    zk_records: Table<AccountId, ZkKycRecord>,
    used_commitments: Table<[u8; 32], bool>,
    jurisdictions: Table<AccountId, u32>,
}

impl KycAttestation {
    pub closed spec fn wf(&self) -> bool {
        &&& self.verifiers.wf()
        &&& self.statuses.wf()
        &&& self.histories.wf()
        &&& self.zk_statuses.wf()
        &&& self.zk_records.wf()
        &&& self.used_commitments.wf()
        &&& self.jurisdictions.wf()
    }

    pub closed spec fn spec_admin(&self) -> Option<AccountId> {
        self.admin
    }

    /// `account` is a registered verifier.
    pub closed spec fn spec_is_verifier(&self, account: AccountId) -> bool {
        self.verifiers@.contains_key(account) && self.verifiers@[account]
    }

    /// The latest attested status of `farmer` (`Pending` if never attested).
    pub closed spec fn spec_status(&self, farmer: AccountId) -> KycStatus {
        if self.statuses@.contains_key(farmer) { self.statuses@[farmer] } else { KycStatus::Pending }
    }

    /// `farmer`'s attestation history, oldest first.
    pub closed spec fn spec_history(&self, farmer: AccountId) -> Seq<Attestation> {
        if self.histories@.contains_key(farmer) { self.histories@[farmer]@ } else { Seq::empty() }
    }

    /// The ZK-path status of `farmer` (`Pending` if never verified).
    pub closed spec fn spec_zk_status(&self, farmer: AccountId) -> KycStatus {
        if self.zk_statuses@.contains_key(farmer) { self.zk_statuses@[farmer] } else { KycStatus::Pending }
    }

    /// The ZK verification record of `farmer`, if any.
    pub closed spec fn spec_zk_record(&self, farmer: AccountId) -> Option<ZkKycRecord> {
        if self.zk_records@.contains_key(farmer) { Some(self.zk_records@[farmer]) } else { None }
    }

    /// `commitment` was consumed by an earlier ZK verification.
    pub closed spec fn spec_commitment_used(&self, commitment: [u8; 32]) -> bool {
        self.used_commitments@.contains_key(commitment)
    }

    /// The jurisdiction flags of `user` (0 if never set).
    pub closed spec fn spec_jurisdiction_flags(&self, user: AccountId) -> u32 {
        if self.jurisdictions@.contains_key(user) { self.jurisdictions@[user] } else { 0 }
    }

    /// The state of the legacy attestation path is as in `other`.
    pub open spec fn same_legacy(&self, other: &Self) -> bool {
        &&& forall|f: AccountId| #[trigger] self.spec_status(f) == other.spec_status(f)
        &&& forall|f: AccountId| #[trigger] self.spec_history(f) == other.spec_history(f)
    }

    /// The state of the ZK path is as in `other`.
    pub open spec fn same_zk(&self, other: &Self) -> bool {
        &&& forall|f: AccountId| #[trigger] self.spec_zk_status(f) == other.spec_zk_status(f)
        &&& forall|f: AccountId| #[trigger] self.spec_zk_record(f) == other.spec_zk_record(f)
        &&& forall|c: [u8; 32]| #[trigger] self.spec_commitment_used(c) == other.spec_commitment_used(c)
    }

    /// Admin, verifiers and jurisdiction flags are as in `other`.
    pub open spec fn same_roles(&self, other: &Self) -> bool {
        &&& self.spec_admin() == other.spec_admin()
        &&& forall|a: AccountId| #[trigger] self.spec_is_verifier(a) == other.spec_is_verifier(a)
        &&& forall|a: AccountId| #[trigger] self.spec_jurisdiction_flags(a) == other.spec_jurisdiction_flags(a)
    }

    /// A freshly deployed contract with empty storage.
    pub fn new() -> (c: Self)
        ensures
            c.wf(),
            c.spec_admin() is None,
            forall|a: AccountId| !c.spec_is_verifier(a),
            forall|f: AccountId| c.spec_status(f) == KycStatus::Pending && c.spec_history(f) == Seq::<Attestation>::empty(),
            forall|f: AccountId| c.spec_zk_status(f) == KycStatus::Pending && c.spec_zk_record(f) is None,
            forall|k: [u8; 32]| !c.spec_commitment_used(k),
            forall|a: AccountId| c.spec_jurisdiction_flags(a) == 0,
    {
        KycAttestation {
            admin: None,
            verifiers: Table::new(),
            statuses: Table::new(),
            histories: Table::new(),
            zk_statuses: Table::new(),
            zk_records: Table::new(),
            used_commitments: Table::new(),
            jurisdictions: Table::new(),
        }
    }

    /// One-time setup of the admin.
    pub fn initialize(&mut self, admin: AccountId) -> (r: Result<(), Fault>)
        requires
            old(self).wf(),
        ensures
            final(self).wf(),
            old(self).spec_admin() is Some ==> r == Err::<(), Fault>(Fault::Shared(HarvestaError::AlreadyInitialized))
                && *final(self) == *old(self),
            old(self).spec_admin() is None ==> r is Ok && final(self).spec_admin() == Some(admin),
            final(self).same_legacy(old(self)),
            final(self).same_zk(old(self)),
            forall|a: AccountId| #[trigger] final(self).spec_is_verifier(a) == old(self).spec_is_verifier(a),
            forall|a: AccountId| #[trigger] final(self).spec_jurisdiction_flags(a) == old(self).spec_jurisdiction_flags(a),
    {
        if self.admin.is_some() {
            return Err(Fault::Shared(HarvestaError::AlreadyInitialized));
        }
        self.admin = Some(admin);
        Ok(())
    }

    /// The refusal, if any, of a verifier-gated entry point called by `verifier`.
    fn check_verifier(&self, signers: &Signers, verifier: AccountId) -> (r: Result<(), Fault>)
        requires
            self.wf(),
        ensures
            !signers.authorizes(verifier) ==> r == Err::<(), Fault>(Fault::Unauthorized(verifier)),
            signers.authorizes(verifier) && !self.spec_is_verifier(verifier)
                ==> r == Err::<(), Fault>(Fault::Shared(HarvestaError::NotVerifier)),
            r is Ok <==> signers.authorizes(verifier) && self.spec_is_verifier(verifier),
    {
        signers.require_auth(verifier)?;
        match self.verifiers.get(&verifier) {
            Some(v) => if *v {
                Ok(())
            } else {
                Err(Fault::Shared(HarvestaError::NotVerifier))
            },
            None => Err(Fault::Shared(HarvestaError::NotVerifier)),
        }
    }

    /// A registered verifier certifies `farmer` with the public outputs of a
    /// ZK-KYC proof. The proof must be unexpired, name an approved region
    /// whose SHA-256 is the region commitment, and carry an age commitment
    /// never used before. On success the farmer's ZK status becomes
    /// `Verified` and the record keeps SHA-256 of the proof digest.
    pub fn verify_kyc(&mut self, signers: &Signers, verifier: AccountId, farmer: AccountId, proof: ZkProofInput, now: u64) -> (r: Result<(), Fault>)
        requires
            old(self).wf(),
        ensures
            final(self).wf(),
            !signers.authorizes(verifier) ==> r == Err::<(), Fault>(Fault::Unauthorized(verifier)),
            signers.authorizes(verifier) && !old(self).spec_is_verifier(verifier)
                ==> r == Err::<(), Fault>(Fault::Shared(HarvestaError::NotVerifier)),
            signers.authorizes(verifier) && old(self).spec_is_verifier(verifier) ==> match zk_proof_error(
                proof, old(self).spec_commitment_used(proof.age_commitment), now) {
                Some(e) => r == Err::<(), Fault>(Fault::Kyc(e)),
                None => {
                    &&& r is Ok
                    &&& forall|f: AccountId| #[trigger] final(self).spec_zk_status(f)
                        == if f == farmer { KycStatus::Verified } else { old(self).spec_zk_status(f) }
                    &&& final(self).spec_zk_record(farmer) matches Some(rec)
                        && rec == zk_record_for(farmer, verifier, proof, rec.proof_integrity_hash, now)
                        && rec.proof_integrity_hash@ == sha256_digest(proof.proof_digest@)
                    &&& final(self).spec_zk_record(farmer) matches Some(rec) && {
                        &&& rec.farmer == farmer
                        &&& rec.verifier == verifier
                        &&& rec.verified_at == now
                        &&& rec.valid_until == proof.valid_until
                        &&& rec.age_commitment == proof.age_commitment
                        &&& rec.region_commitment == proof.region_commitment
                        &&& rec.verified_region == proof.region_plaintext
                    }
                    &&& forall|f: AccountId| f != farmer ==> #[trigger] final(self).spec_zk_record(f) == old(self).spec_zk_record(f)
                    &&& forall|c: [u8; 32]| #[trigger] final(self).spec_commitment_used(c)
                        == (c == proof.age_commitment || old(self).spec_commitment_used(c))
                },
            },
            r is Err ==> *final(self) == *old(self),
            final(self).same_legacy(old(self)),
            final(self).same_roles(old(self)),
    {
        self.check_verifier(signers, verifier)?;
        if self.used_commitments.contains_key(&proof.age_commitment) {
            return Err(Fault::Kyc(Error::CommitmentAlreadySubmitted));
        }
        if proof.valid_until <= now {
            return Err(Fault::Kyc(Error::ProofExpired));
        }
        if !is_valid_region(&proof.region_plaintext) {
            return Err(Fault::Kyc(Error::OutsideNigeriaRegion));
        }
        let region_text = proof.region_plaintext.as_str();
        let region_bytes = region_text.as_bytes();
        proof {
            lemma_valid_region_bytes(region_text);
        }
        let derived = sha256(region_bytes);
        assert(derived@ == region_digest(proof.region_plaintext@));
        if !crate::table::bytes32_eq(&derived, &proof.region_commitment) {
            proof {
                if derived@ == proof.region_commitment@ {
                    crate::crypto::lemma_bytes32_view_injective(derived, proof.region_commitment);
                }
            }
            return Err(Fault::Kyc(Error::ZkProofInvalid));
        }
        let integrity = sha256(vstd::array::array_as_slice(&proof.proof_digest));
        let ghost input = proof;
        let ZkProofInput { proof_digest: _, age_commitment, region_commitment, region_plaintext, valid_until } = proof;
        let record = ZkKycRecord {
            farmer,
            verifier,
            proof_integrity_hash: integrity,
            age_commitment,
            region_commitment,
            verified_region: region_plaintext,
            verified_at: now,
            valid_until,
        };
        assert(record == zk_record_for(farmer, verifier, input, integrity, now));
        self.zk_statuses.insert(farmer, KycStatus::Verified);
        self.zk_records.insert(farmer, record);
        self.used_commitments.insert(age_commitment, true);
        Ok(())
    }

    /// A registered verifier attests `farmer`'s KYC status. The attestation
    /// is appended to the farmer's history; earlier entries are never
    /// rewritten.
    pub fn attest_kyc(&mut self, signers: &Signers, verifier: AccountId, farmer: AccountId, status: KycStatus, now: u64) -> (r: Result<(), Fault>)
        requires
            old(self).wf(),
        ensures
            final(self).wf(),
            !signers.authorizes(verifier) ==> r == Err::<(), Fault>(Fault::Unauthorized(verifier)),
            signers.authorizes(verifier) && !old(self).spec_is_verifier(verifier)
                ==> r == Err::<(), Fault>(Fault::Shared(HarvestaError::NotVerifier)),
            signers.authorizes(verifier) && old(self).spec_is_verifier(verifier) ==> {
                &&& r is Ok
                &&& forall|f: AccountId| #[trigger] final(self).spec_history(f) == if f == farmer {
                    old(self).spec_history(f).push(Attestation { verifier, status, timestamp: now })
                } else {
                    old(self).spec_history(f)
                }
                &&& forall|f: AccountId| #[trigger] final(self).spec_status(f)
                    == if f == farmer { status } else { old(self).spec_status(f) }
            },
            r is Err ==> *final(self) == *old(self),
            final(self).same_zk(old(self)),
            final(self).same_roles(old(self)),
    {
        self.check_verifier(signers, verifier)?;
        let attestation = Attestation { verifier, status, timestamp: now };
        let mut history = match self.histories.remove(&farmer) {
            Some(h) => h,
            None => Vec::new(),
        };
        history.push(attestation);
        self.histories.insert(farmer, history);
        self.statuses.insert(farmer, status);
        Ok(())
    }

    /// The ZK-path status of `farmer`; `Pending` if never verified.
    pub fn get_zk_kyc_status(&self, farmer: AccountId) -> (r: KycStatus)
        requires
            self.wf(),
        ensures
            r == self.spec_zk_status(farmer),
    {
        match self.zk_statuses.get(&farmer) {
            Some(st) => *st,
            None => KycStatus::Pending,
        }
    }

    /// The ZK verification record of `farmer`, if verified.
    pub fn get_zk_kyc_record(&self, farmer: AccountId) -> (r: Option<ZkKycRecord>)
        requires
            self.wf(),
        ensures
            r == self.spec_zk_record(farmer),
    {
        match self.zk_records.get(&farmer) {
            Some(rec) => Some(rec.duplicate()),
            None => None,
        }
    }

    /// The latest attested status of `farmer`; `Pending` if never attested.
    pub fn get_kyc_status(&self, farmer: AccountId) -> (r: KycStatus)
        requires
            self.wf(),
        ensures
            r == self.spec_status(farmer),
    {
        match self.statuses.get(&farmer) {
            Some(st) => *st,
            None => KycStatus::Pending,
        }
    }

    /// `farmer`'s attestation history, oldest first.
    pub fn get_kyc_history(&self, farmer: AccountId) -> (r: Vec<Attestation>)
        requires
            self.wf(),
        ensures
            r@ == self.spec_history(farmer),
    {
        let mut out: Vec<Attestation> = Vec::new();
        match self.histories.get(&farmer) {
            Some(h) => {
                let mut i: usize = 0;
                while i < h.len()
                    invariant
                        0 <= i <= h@.len(),
                        out@ == h@.subrange(0, i as int),
                    decreases h@.len() - i,
                {
                    out.push(h[i]);
                    i = i + 1;
                    assert(out@ =~= h@.subrange(0, i as int));
                }
                assert(h@.subrange(0, h@.len() as int) =~= h@);
            },
            None => {},
        }
        out
    }

    /// A registered verifier sets `user`'s jurisdiction compliance flags.
    pub fn set_jurisdiction_flags(&mut self, signers: &Signers, verifier: AccountId, user: AccountId, flags: u32) -> (r: Result<(), Fault>)
        requires
            old(self).wf(),
        ensures
            final(self).wf(),
            !signers.authorizes(verifier) ==> r == Err::<(), Fault>(Fault::Unauthorized(verifier)),
            signers.authorizes(verifier) && !old(self).spec_is_verifier(verifier)
                ==> r == Err::<(), Fault>(Fault::Shared(HarvestaError::NotVerifier)),
            signers.authorizes(verifier) && old(self).spec_is_verifier(verifier) ==> {
                &&& r is Ok
                &&& forall|a: AccountId| #[trigger] final(self).spec_jurisdiction_flags(a)
                    == if a == user { flags } else { old(self).spec_jurisdiction_flags(a) }
            },
            r is Err ==> *final(self) == *old(self),
            final(self).spec_admin() == old(self).spec_admin(),
            forall|a: AccountId| #[trigger] final(self).spec_is_verifier(a) == old(self).spec_is_verifier(a),
            final(self).same_legacy(old(self)),
            final(self).same_zk(old(self)),
    {
        self.check_verifier(signers, verifier)?;
        self.jurisdictions.insert(user, flags);
        Ok(())
    }

    /// `user`'s jurisdiction compliance flags; 0 if never set.
    pub fn get_jurisdiction_flags(&self, user: AccountId) -> (r: u32)
        requires
            self.wf(),
        ensures
            r == self.spec_jurisdiction_flags(user),
    {
        match self.jurisdictions.get(&user) {
            Some(f) => *f,
            None => 0,
        }
    }

    /// Whether `user` holds every flag in `required_flags`.
    pub fn has_jurisdiction_compliance(&self, user: AccountId, required_flags: u32) -> (r: bool)
        requires
            self.wf(),
        ensures
            r == (self.spec_jurisdiction_flags(user) & required_flags == required_flags),
    {
        let current = self.get_jurisdiction_flags(user);
        current & required_flags == required_flags
    }

    /// The admin registers `verifier`.
    pub fn register_verifier(&mut self, signers: &Signers, admin: AccountId, verifier: AccountId) -> (r: Result<(), Fault>)
        requires
            old(self).wf(),
        ensures
            final(self).wf(),
            !signers.authorizes(admin) ==> r == Err::<(), Fault>(Fault::Unauthorized(admin)),
            signers.authorizes(admin) ==> match old(self).spec_admin() {
                None => r == Err::<(), Fault>(Fault::Shared(HarvestaError::NotInitialized)),
                Some(stored) => if stored != admin {
                    r == Err::<(), Fault>(Fault::Shared(HarvestaError::Unauthorized))
                } else {
                    &&& r is Ok
                    &&& forall|a: AccountId| #[trigger] final(self).spec_is_verifier(a) == (a == verifier || old(self).spec_is_verifier(a))
                },
            },
            r is Err ==> *final(self) == *old(self),
            final(self).spec_admin() == old(self).spec_admin(),
            final(self).same_legacy(old(self)),
            final(self).same_zk(old(self)),
            forall|a: AccountId| #[trigger] final(self).spec_jurisdiction_flags(a) == old(self).spec_jurisdiction_flags(a),
    {
        signers.require_auth(admin)?;
        match self.admin {
            None => return Err(Fault::Shared(HarvestaError::NotInitialized)),
            Some(stored) => if stored.0 != admin.0 {
                return Err(Fault::Shared(HarvestaError::Unauthorized));
            },
        }
        self.verifiers.insert(verifier, true);
        Ok(())
    }
}

/// Replay protection: once an age commitment has been accepted, every later
/// ZK verification that presents it is refused with
/// `CommitmentAlreadySubmitted`, whatever farmer it names and whatever the
/// rest of the proof holds.
pub proof fn law_age_commitment_single_use(k: &KycAttestation, proof: ZkProofInput, now: u64)
    requires
        k.spec_commitment_used(proof.age_commitment),
    ensures
        zk_proof_error(proof, k.spec_commitment_used(proof.age_commitment), now) == Some(Error::CommitmentAlreadySubmitted),
{
}


/// The record a ZK verification writes names the farmer and the verifier,
/// keeps the proof's public outputs, and is stamped with the time of the
/// verification.
pub proof fn law_zk_record_is_stamped_now(
    farmer: AccountId,
    verifier: AccountId,
    proof: ZkProofInput,
    integrity: [u8; 32],
    now: u64,
)
    ensures
        zk_record_for(farmer, verifier, proof, integrity, now).farmer == farmer,
        zk_record_for(farmer, verifier, proof, integrity, now).verifier == verifier,
        zk_record_for(farmer, verifier, proof, integrity, now).proof_integrity_hash == integrity,
        zk_record_for(farmer, verifier, proof, integrity, now).age_commitment == proof.age_commitment,
        zk_record_for(farmer, verifier, proof, integrity, now).region_commitment == proof.region_commitment,
        zk_record_for(farmer, verifier, proof, integrity, now).verified_region == proof.region_plaintext,
        zk_record_for(farmer, verifier, proof, integrity, now).verified_at == now,
        zk_record_for(farmer, verifier, proof, integrity, now).valid_until == proof.valid_until,
{
}

/// A ZK verification is accepted only for a proof still valid at `now`,
/// naming one of the approved prefixes `s0`..`s8`, whose age commitment is
/// unused.
pub proof fn law_accepted_proof_is_fresh_and_in_region(proof: ZkProofInput, commitment_used: bool, now: u64)
    requires
        zk_proof_error(proof, commitment_used, now) is None,
    ensures
        !commitment_used,
        now < proof.valid_until,
        proof.region_plaintext@ == "s0"@ || proof.region_plaintext@ == "s1"@ || proof.region_plaintext@ == "s2"@
            || proof.region_plaintext@ == "s3"@ || proof.region_plaintext@ == "s4"@ || proof.region_plaintext@ == "s5"@
            || proof.region_plaintext@ == "s6"@ || proof.region_plaintext@ == "s7"@ || proof.region_plaintext@ == "s8"@,
{
}

} // verus!
