//! Registry of farmers whose identity documents are kept off-chain: the
//! ledger holds only the SHA-256 digest of each document, re-checked on
//! every write, and all profile writes and privileged reads are gated
//! behind an admin-managed set of validators.

use vstd::prelude::*;
use crate::common::{AccountId, Fault, Signers};
use crate::crypto::{sha256, sha256_digest, lemma_bytes32_view_injective, MAX_HASH_INPUT_BYTES};
use crate::harvesta_errors::{FarmerError, HarvestaError};
use crate::kyc_attestation::{is_valid_region, valid_region};
use crate::table::{append_to_list, bytes32_eq, lemma_records_listed_append, list_of, list_records, records_listed, Duplicate, Table, TableKey};

verus! {

/// Full profile, readable by validators only.
#[derive(Debug, PartialEq, Eq)]
pub struct FarmerProfile {
    pub wallet_address: AccountId,
    /// SHA-256 of the encrypted off-chain identity / land document.
    pub land_doc_hash: [u8; 32],
    /// Geohash prefix (`s0`..`s8`) of the farmer's region.
    pub region_geohash: String,
    pub registered_at: u64,
}

/// The public part of a profile: no wallet address.
#[derive(Debug, PartialEq, Eq)]
pub struct PublicFarmerView {
    pub land_doc_hash: [u8; 32],
    pub region_geohash: String,
    pub registered_at: u64,
}

/// A profile as it stood at one version, kept for audit.
#[derive(Debug, PartialEq, Eq)]
pub struct ProfileHistoryEntry {
    pub version: u32,
    pub profile: FarmerProfile,
    pub updated_at: u64,
}

/// A farm plot as a polygon of (latitude, longitude) vertices.
#[derive(Debug, PartialEq, Eq)]
pub struct FarmPlot {
    pub plot_id: [u8; 32],
    pub farmer_id: AccountId,
    pub coordinates: Vec<(i64, i64)>,
    pub area_sqm: u64,
    pub registered_at: u64,
}

/// A verified land title.
#[derive(Debug, PartialEq, Eq)]
pub struct LandTenureVerification {
    pub title_id: [u8; 32],
    pub land_title_hash: [u8; 32],
    pub farmer_id: AccountId,
    pub validator_signature: Vec<u8>,
    pub verified_at: u64,
    pub is_verified: bool,
}

/// Key of a history entry: a farmer and a version.
#[derive(Clone, Copy, Debug, PartialEq, Eq, Structural)]
pub struct HistoryKey {
    pub wallet: AccountId,
    pub version: u32,
}

impl TableKey for HistoryKey {
    fn key_eq(&self, other: &Self) -> (r: bool) {
        self.wallet.0 == other.wallet.0 && self.version == other.version
    }
}

/// A copy of the bytes `v`.
fn copy_bytes(v: &Vec<u8>) -> (r: Vec<u8>)
    ensures
        r@ == v@,
{
    let mut out: Vec<u8> = Vec::new();
    let mut i: usize = 0;
    while i < v.len()
        invariant
            0 <= i <= v@.len(),
            out@ == v@.subrange(0, i as int),
        decreases v@.len() - i,
    {
        out.push(v[i]);
        i = i + 1;
        assert(out@ =~= v@.subrange(0, i as int));
    }
    assert(v@.subrange(0, v@.len() as int) =~= v@);
    out
}

/// Abstract value of a plot: its fields, with the vertices as a sequence.
pub struct PlotView {
    pub plot_id: [u8; 32],
    pub farmer_id: AccountId,
    pub coordinates: Seq<(i64, i64)>,
    pub area_sqm: u64,
    pub registered_at: u64,
}

impl View for FarmPlot {
    type V = PlotView;

    open spec fn view(&self) -> PlotView {
        PlotView {
            plot_id: self.plot_id,
            farmer_id: self.farmer_id,
            coordinates: self.coordinates@,
            area_sqm: self.area_sqm,
            registered_at: self.registered_at,
        }
    }
}

/// Abstract value of a land tenure record, with the signature as a sequence.
pub struct TenureView {
    pub title_id: [u8; 32],
    pub land_title_hash: [u8; 32],
    pub farmer_id: AccountId,
    pub validator_signature: Seq<u8>,
    pub verified_at: u64,
    pub is_verified: bool,
}

impl View for LandTenureVerification {
    type V = TenureView;

    open spec fn view(&self) -> TenureView {
        TenureView {
            title_id: self.title_id,
            land_title_hash: self.land_title_hash,
            farmer_id: self.farmer_id,
            validator_signature: self.validator_signature@,
            verified_at: self.verified_at,
            is_verified: self.is_verified,
        }
    }
}

impl View for FarmerProfile {
    type V = FarmerProfile;

    open spec fn view(&self) -> FarmerProfile {
        *self
    }
}

impl View for ProfileHistoryEntry {
    type V = ProfileHistoryEntry;

    open spec fn view(&self) -> ProfileHistoryEntry {
        *self
    }
}

impl Duplicate for FarmerProfile {
    fn duplicate(&self) -> (r: Self) {
        FarmerProfile {
            wallet_address: self.wallet_address,
            land_doc_hash: self.land_doc_hash,
            region_geohash: self.region_geohash.clone(),
            registered_at: self.registered_at,
        }
    }
}

impl Duplicate for ProfileHistoryEntry {
    fn duplicate(&self) -> (r: Self) {
        ProfileHistoryEntry { version: self.version, profile: self.profile.duplicate(), updated_at: self.updated_at }
    }
}

impl Duplicate for FarmPlot {
    fn duplicate(&self) -> (r: Self) {
        let mut coords: Vec<(i64, i64)> = Vec::new();
        let mut i: usize = 0;
        while i < self.coordinates.len()
            invariant
                0 <= i <= self.coordinates@.len(),
                coords@ == self.coordinates@.subrange(0, i as int),
            decreases self.coordinates@.len() - i,
        {
            coords.push(self.coordinates[i]);
            i = i + 1;
            assert(coords@ =~= self.coordinates@.subrange(0, i as int));
        }
        assert(self.coordinates@.subrange(0, self.coordinates@.len() as int) =~= self.coordinates@);
        let r = FarmPlot {
            plot_id: self.plot_id,
            farmer_id: self.farmer_id,
            coordinates: coords,
            area_sqm: self.area_sqm,
            registered_at: self.registered_at,
        };
        r
    }
}

impl Duplicate for LandTenureVerification {
    fn duplicate(&self) -> (r: Self) {
        let r = LandTenureVerification {
            title_id: self.title_id,
            land_title_hash: self.land_title_hash,
            farmer_id: self.farmer_id,
            validator_signature: copy_bytes(&self.validator_signature),
            verified_at: self.verified_at,
            is_verified: self.is_verified,
        };
        r
    }
}

/// Fewest and most vertices a plot polygon may have.
pub const MIN_PLOT_VERTICES: usize = 3;
pub const MAX_PLOT_VERTICES: usize = 50;

/// `hash` is the SHA-256 digest of some document.
pub open spec fn is_some_digest(hash: [u8; 32]) -> bool {
    exists|doc: Seq<u8>| hash@ == sha256_digest(doc)
}

/// Storage of the farmer registry.
pub struct FarmerRegistry {
    admin: Option<AccountId>,
    admin_controls: Option<AccountId>,
    validators: Table<AccountId, bool>,
    frozen: Table<AccountId, bool>,
    farmers: Table<AccountId, FarmerProfile>,
    versions: Table<AccountId, u32>,
    history: Table<HistoryKey, ProfileHistoryEntry>,
    availability: Table<AccountId, bool>,
    plots: Table<[u8; 32], FarmPlot>,
    farmer_plots: Table<AccountId, Vec<[u8; 32]>>,
    tenures: Table<[u8; 32], LandTenureVerification>,
    farmer_tenures: Table<AccountId, Vec<[u8; 32]>>,
}

impl FarmerRegistry {
    /// The tables are well formed, only registered farmers have an
    /// availability flag, and every plot or title id listed for a farmer
    /// names a stored plot or tenure.
    pub closed spec fn wf(&self) -> bool {
        &&& self.validators.wf()
        &&& self.frozen.wf()
        &&& self.farmers.wf()
        &&& self.versions.wf()
        &&& self.history.wf()
        &&& self.availability.wf()
        &&& self.plots.wf()
        &&& self.farmer_plots.wf()
        &&& self.tenures.wf()
        &&& self.farmer_tenures.wf()
        &&& forall|w: AccountId| #[trigger] self.availability@.contains_key(w) ==> self.farmers@.contains_key(w)
        &&& forall|a: AccountId, j: int| 0 <= j < list_of(self.farmer_plots@, a).len()
            ==> self.plots@.contains_key(#[trigger] list_of(self.farmer_plots@, a)[j])
        &&& forall|a: AccountId, j: int| 0 <= j < list_of(self.farmer_tenures@, a).len()
            ==> self.tenures@.contains_key(#[trigger] list_of(self.farmer_tenures@, a)[j])
    }

    pub closed spec fn spec_admin(&self) -> Option<AccountId> {
        self.admin
    }

    /// The admin-controls contract consulted for the platform pause.
    pub closed spec fn spec_admin_controls(&self) -> Option<AccountId> {
        self.admin_controls
    }

    pub closed spec fn spec_is_validator(&self, account: AccountId) -> bool {
        self.validators@.contains_key(account) && self.validators@[account]
    }

    pub closed spec fn spec_is_frozen(&self, wallet: AccountId) -> bool {
        self.frozen@.contains_key(wallet) && self.frozen@[wallet]
    }

    /// Current profiles by wallet.
    pub closed spec fn spec_farmers(&self) -> Map<AccountId, FarmerProfile> {
        self.farmers@
    }

    /// Current profile version of `wallet` (0 if never set).
    pub closed spec fn spec_version(&self, wallet: AccountId) -> u32 {
        if self.versions@.contains_key(wallet) { self.versions@[wallet] } else { 0 }
    }

    /// Archived profile versions.
    pub closed spec fn spec_history(&self) -> Map<HistoryKey, ProfileHistoryEntry> {
        self.history@
    }

    /// Whether `wallet` accepts new jobs (`true` unless opted out).
    pub closed spec fn spec_available(&self, wallet: AccountId) -> bool {
        if self.availability@.contains_key(wallet) { self.availability@[wallet] } else { true }
    }

    pub closed spec fn spec_plots(&self) -> Map<[u8; 32], FarmPlot> {
        self.plots@
    }

    /// Ids of the plots `farmer` registered, in order.
    pub closed spec fn spec_plot_ids(&self, farmer: AccountId) -> Seq<[u8; 32]> {
        list_of(self.farmer_plots@, farmer)
    }

    pub closed spec fn spec_tenures(&self) -> Map<[u8; 32], LandTenureVerification> {
        self.tenures@
    }

    /// Title ids of the tenures verified for `farmer`, in order.
    pub closed spec fn spec_tenure_ids(&self, farmer: AccountId) -> Seq<[u8; 32]> {
        list_of(self.farmer_tenures@, farmer)
    }

    pub open spec fn same_roles(&self, other: &Self) -> bool {
        &&& self.spec_admin() == other.spec_admin()
        &&& self.spec_admin_controls() == other.spec_admin_controls()
        &&& forall|a: AccountId| #[trigger] self.spec_is_validator(a) == other.spec_is_validator(a)
        &&& forall|a: AccountId| #[trigger] self.spec_is_frozen(a) == other.spec_is_frozen(a)
    }

    pub open spec fn same_profiles(&self, other: &Self) -> bool {
        &&& self.spec_farmers() == other.spec_farmers()
        &&& self.spec_history() == other.spec_history()
        &&& forall|a: AccountId| #[trigger] self.spec_version(a) == other.spec_version(a)
    }

    pub open spec fn same_availability(&self, other: &Self) -> bool {
        forall|a: AccountId| #[trigger] self.spec_available(a) == other.spec_available(a)
    }

    pub open spec fn same_plots(&self, other: &Self) -> bool {
        &&& self.spec_plots() == other.spec_plots()
        &&& forall|a: AccountId| #[trigger] self.spec_plot_ids(a) == other.spec_plot_ids(a)
    }

    pub open spec fn same_tenures(&self, other: &Self) -> bool {
        &&& self.spec_tenures() == other.spec_tenures()
        &&& forall|a: AccountId| #[trigger] self.spec_tenure_ids(a) == other.spec_tenure_ids(a)
    }

    /// Every stored document hash, current or archived, is the SHA-256
    /// digest of some document.
    pub open spec fn hashes_are_digests(&self) -> bool {
        &&& forall|w: AccountId| #[trigger] self.spec_farmers().contains_key(w)
            ==> is_some_digest(self.spec_farmers()[w].land_doc_hash)
        &&& forall|k: HistoryKey| #[trigger] self.spec_history().contains_key(k)
            ==> is_some_digest(self.spec_history()[k].profile.land_doc_hash)
    }

    /// Every stored profile, current or archived, lies in one of the approved
    /// regions `s0`..`s8`.
    pub open spec fn regions_are_approved(&self) -> bool {
        &&& forall|w: AccountId| #[trigger] self.spec_farmers().contains_key(w)
            ==> valid_region(self.spec_farmers()[w].region_geohash@)
        &&& forall|k: HistoryKey| #[trigger] self.spec_history().contains_key(k)
            ==> valid_region(self.spec_history()[k].profile.region_geohash@)
    }

    /// The refusal, if any, owed to the platform pause: the admin-controls
    /// contract must be configured and report the platform running.
    pub open spec fn pause_error(&self, platform_paused: bool) -> Option<Fault> {
        if self.spec_admin_controls() is None {
            Some(Fault::Shared(HarvestaError::NotInitialized))
        } else if platform_paused {
            Some(Fault::PlatformPaused)
        } else {
            None
        }
    }

    /// The refusal, if any, of an admin-only entry point called by `admin`.
    pub open spec fn admin_error(&self, signers: Signers, platform_paused: bool, admin: AccountId) -> Option<Fault> {
        match self.pause_error(platform_paused) {
            Some(f) => Some(f),
            None => if !signers.authorizes(admin) {
                Some(Fault::Unauthorized(admin))
            } else {
                match self.spec_admin() {
                    None => Some(Fault::Shared(HarvestaError::NotInitialized)),
                    Some(a) => if a != admin {
                        Some(Fault::Shared(HarvestaError::Unauthorized))
                    } else {
                        None
                    },
                }
            },
        }
    }

    /// A freshly deployed registry with empty storage.
    pub fn new() -> (c: Self)
        ensures
            c.wf(),
            c.hashes_are_digests(),
            c.regions_are_approved(),
            c.spec_admin() is None,
            c.spec_admin_controls() is None,
            forall|a: AccountId| !c.spec_is_validator(a) && !c.spec_is_frozen(a),
            c.spec_farmers() == Map::<AccountId, FarmerProfile>::empty(),
            c.spec_history() == Map::<HistoryKey, ProfileHistoryEntry>::empty(),
            forall|a: AccountId| c.spec_version(a) == 0 && c.spec_available(a),
            c.spec_plots() == Map::<[u8; 32], FarmPlot>::empty(),
            c.spec_tenures() == Map::<[u8; 32], LandTenureVerification>::empty(),
            forall|a: AccountId| c.spec_plot_ids(a) == Seq::<[u8; 32]>::empty() && c.spec_tenure_ids(a) == Seq::<[u8; 32]>::empty(),
    {
        FarmerRegistry {
            admin: None,
            admin_controls: None,
            validators: Table::new(),
            frozen: Table::new(),
            farmers: Table::new(),
            versions: Table::new(),
            history: Table::new(),
            availability: Table::new(),
            plots: Table::new(),
            farmer_plots: Table::new(),
            tenures: Table::new(),
            farmer_tenures: Table::new(),
        }
    }

    /// One-time setup of the admin and of the admin-controls contract.
    pub fn initialize(&mut self, admin: AccountId, admin_controls: AccountId) -> (r: Result<(), Fault>)
        requires
            old(self).wf(),
        ensures
            final(self).wf(),
            old(self).spec_admin() is Some ==> r == Err::<(), Fault>(Fault::Shared(HarvestaError::AlreadyInitialized))
                && *final(self) == *old(self),
            old(self).spec_admin() is None ==> r is Ok && final(self).spec_admin() == Some(admin)
                && final(self).spec_admin_controls() == Some(admin_controls),
            forall|a: AccountId| #[trigger] final(self).spec_is_validator(a) == old(self).spec_is_validator(a),
            forall|a: AccountId| #[trigger] final(self).spec_is_frozen(a) == old(self).spec_is_frozen(a),
            final(self).same_profiles(old(self)),
            final(self).same_availability(old(self)),
            final(self).same_plots(old(self)),
            final(self).same_tenures(old(self)),
            old(self).hashes_are_digests() ==> final(self).hashes_are_digests(),
            old(self).regions_are_approved() ==> final(self).regions_are_approved(),
    {
        if self.admin.is_some() {
            return Err(Fault::Shared(HarvestaError::AlreadyInitialized));
        }
        self.admin = Some(admin);
        self.admin_controls = Some(admin_controls);
        Ok(())
    }

    fn check_not_paused(&self, platform_paused: bool) -> (r: Result<(), Fault>)
        ensures
            r == match self.pause_error(platform_paused) {
                Some(f) => Err::<(), Fault>(f),
                None => Ok::<(), Fault>(()),
            },
    {
        if self.admin_controls.is_none() {
            return Err(Fault::Shared(HarvestaError::NotInitialized));
        }
        if platform_paused {
            return Err(Fault::PlatformPaused);
        }
        Ok(())
    }

    fn check_admin(&self, signers: &Signers, platform_paused: bool, admin: AccountId) -> (r: Result<(), Fault>)
        ensures
            r == match self.admin_error(*signers, platform_paused, admin) {
                Some(f) => Err::<(), Fault>(f),
                None => Ok::<(), Fault>(()),
            },
    {
        self.check_not_paused(platform_paused)?;
        signers.require_auth(admin)?;
        match self.admin {
            None => Err(Fault::Shared(HarvestaError::NotInitialized)),
            Some(a) => if a.0 != admin.0 {
                Err(Fault::Shared(HarvestaError::Unauthorized))
            } else {
                Ok(())
            },
        }
    }

    fn check_validator(&self, validator: AccountId) -> (r: Result<(), Fault>)
        requires
            self.wf(),
        ensures
            r is Ok <==> self.spec_is_validator(validator),
            r is Err ==> r == Err::<(), Fault>(Fault::Farmer(FarmerError::NotValidator)),
    {
        match self.validators.get(&validator) {
            Some(v) => if *v {
                Ok(())
            } else {
                Err(Fault::Farmer(FarmerError::NotValidator))
            },
            None => Err(Fault::Farmer(FarmerError::NotValidator)),
        }
    }

    fn check_not_frozen(&self, wallet: AccountId) -> (r: Result<(), Fault>)
        requires
            self.wf(),
        ensures
            r is Ok <==> !self.spec_is_frozen(wallet),
            r is Err ==> r == Err::<(), Fault>(Fault::Farmer(FarmerError::FarmerFrozen)),
    {
        match self.frozen.get(&wallet) {
            Some(f) => if *f {
                Err(Fault::Farmer(FarmerError::FarmerFrozen))
            } else {
                Ok(())
            },
            None => Ok(()),
        }
    }

    /// Whether SHA-256 of `preimage` is `expected`.
    fn digest_matches(preimage: &[u8], expected: &[u8; 32]) -> (r: bool)
        requires
            preimage@.len() <= MAX_HASH_INPUT_BYTES,
        ensures
            r == (expected@ == sha256_digest(preimage@)),
    {
        let computed = sha256(preimage);
        let same = bytes32_eq(&computed, expected);
        proof {
            if computed@ == expected@ {
                lemma_bytes32_view_injective(computed, *expected);
            }
        }
        same
    }

    /// Admin only: make `validator` a registered validator.
    pub fn register_validator(&mut self, signers: &Signers, platform_paused: bool, admin: AccountId, validator: AccountId) -> (r: Result<(), Fault>)
        requires
            old(self).wf(),
        ensures
            final(self).wf(),
            match old(self).admin_error(*signers, platform_paused, admin) {
                Some(f) => r == Err::<(), Fault>(f) && *final(self) == *old(self),
                None => {
                    &&& r is Ok
                    &&& forall|a: AccountId| #[trigger] final(self).spec_is_validator(a) == (a == validator || old(self).spec_is_validator(a))
                },
            },
            final(self).spec_admin() == old(self).spec_admin(),
            final(self).spec_admin_controls() == old(self).spec_admin_controls(),
            forall|a: AccountId| #[trigger] final(self).spec_is_frozen(a) == old(self).spec_is_frozen(a),
            final(self).same_profiles(old(self)),
            final(self).same_availability(old(self)),
            final(self).same_plots(old(self)),
            final(self).same_tenures(old(self)),
            old(self).hashes_are_digests() ==> final(self).hashes_are_digests(),
            old(self).regions_are_approved() ==> final(self).regions_are_approved(),
    {
        self.check_admin(signers, platform_paused, admin)?;
        self.validators.insert(validator, true);
        Ok(())
    }

    /// Admin only: remove `validator` from the validator set.
    pub fn revoke_validator(&mut self, signers: &Signers, platform_paused: bool, admin: AccountId, validator: AccountId) -> (r: Result<(), Fault>)
        requires
            old(self).wf(),
        ensures
            final(self).wf(),
            match old(self).admin_error(*signers, platform_paused, admin) {
                Some(f) => r == Err::<(), Fault>(f) && *final(self) == *old(self),
                None => {
                    &&& r is Ok
                    &&& forall|a: AccountId| #[trigger] final(self).spec_is_validator(a) == (a != validator && old(self).spec_is_validator(a))
                },
            },
            final(self).spec_admin() == old(self).spec_admin(),
            final(self).spec_admin_controls() == old(self).spec_admin_controls(),
            forall|a: AccountId| #[trigger] final(self).spec_is_frozen(a) == old(self).spec_is_frozen(a),
            final(self).same_profiles(old(self)),
            final(self).same_availability(old(self)),
            final(self).same_plots(old(self)),
            final(self).same_tenures(old(self)),
            old(self).hashes_are_digests() ==> final(self).hashes_are_digests(),
            old(self).regions_are_approved() ==> final(self).regions_are_approved(),
    {
        self.check_admin(signers, platform_paused, admin)?;
        self.validators.remove(&validator);
        Ok(())
    }

    /// Whether `validator` is a registered validator.
    pub fn is_validator(&self, validator: AccountId) -> (r: bool)
        requires
            self.wf(),
        ensures
            r == self.spec_is_validator(validator),
    {
        self.check_validator(validator).is_ok()
    }

    /// Admin only: freeze a compromised farmer address pending audit.
    pub fn freeze_farmer(&mut self, signers: &Signers, platform_paused: bool, admin: AccountId, wallet_address: AccountId) -> (r: Result<(), Fault>)
        requires
            old(self).wf(),
        ensures
            final(self).wf(),
            match old(self).admin_error(*signers, platform_paused, admin) {
                Some(f) => r == Err::<(), Fault>(f) && *final(self) == *old(self),
                None => {
                    &&& r is Ok
                    &&& forall|a: AccountId| #[trigger] final(self).spec_is_frozen(a) == (a == wallet_address || old(self).spec_is_frozen(a))
                },
            },
            final(self).spec_admin() == old(self).spec_admin(),
            final(self).spec_admin_controls() == old(self).spec_admin_controls(),
            forall|a: AccountId| #[trigger] final(self).spec_is_validator(a) == old(self).spec_is_validator(a),
            final(self).same_profiles(old(self)),
            final(self).same_availability(old(self)),
            final(self).same_plots(old(self)),
            final(self).same_tenures(old(self)),
            old(self).hashes_are_digests() ==> final(self).hashes_are_digests(),
            old(self).regions_are_approved() ==> final(self).regions_are_approved(),
    {
        self.check_admin(signers, platform_paused, admin)?;
        self.frozen.insert(wallet_address, true);
        Ok(())
    }

    /// Admin only: lift the freeze of a farmer address.
    pub fn unfreeze_farmer(&mut self, signers: &Signers, platform_paused: bool, admin: AccountId, wallet_address: AccountId) -> (r: Result<(), Fault>)
        requires
            old(self).wf(),
        ensures
            final(self).wf(),
            match old(self).admin_error(*signers, platform_paused, admin) {
                Some(f) => r == Err::<(), Fault>(f) && *final(self) == *old(self),
                None => {
                    &&& r is Ok
                    &&& forall|a: AccountId| #[trigger] final(self).spec_is_frozen(a) == (a != wallet_address && old(self).spec_is_frozen(a))
                },
            },
            final(self).spec_admin() == old(self).spec_admin(),
            final(self).spec_admin_controls() == old(self).spec_admin_controls(),
            forall|a: AccountId| #[trigger] final(self).spec_is_validator(a) == old(self).spec_is_validator(a),
            final(self).same_profiles(old(self)),
            final(self).same_availability(old(self)),
            final(self).same_plots(old(self)),
            final(self).same_tenures(old(self)),
            old(self).hashes_are_digests() ==> final(self).hashes_are_digests(),
            old(self).regions_are_approved() ==> final(self).regions_are_approved(),
    {
        self.check_admin(signers, platform_paused, admin)?;
        self.frozen.remove(&wallet_address);
        Ok(())
    }

    /// Whether `wallet_address` is frozen.
    pub fn is_frozen(&self, wallet_address: AccountId) -> (r: bool)
        requires
            self.wf(),
        ensures
            r == self.spec_is_frozen(wallet_address),
    {
        self.check_not_frozen(wallet_address).is_err()
    }
}

impl FarmerRegistry {
    /// The refusal, if any, of registering `wallet` through `validator`.
    pub open spec fn register_error(
        &self,
        signers: Signers,
        platform_paused: bool,
        validator: AccountId,
        wallet: AccountId,
        land_doc_hash: [u8; 32],
        doc_preimage: Seq<u8>,
        region: Seq<char>,
    ) -> Option<Fault> {
        match self.pause_error(platform_paused) {
            Some(f) => Some(f),
            None => if !signers.authorizes(validator) {
                Some(Fault::Unauthorized(validator))
            } else if !signers.authorizes(wallet) {
                Some(Fault::Unauthorized(wallet))
            } else if !self.spec_is_validator(validator) {
                Some(Fault::Farmer(FarmerError::NotValidator))
            } else if !valid_region(region) {
                Some(Fault::Farmer(FarmerError::InvalidRegion))
            } else if doc_preimage.len() > MAX_HASH_INPUT_BYTES {
                Some(Fault::BudgetExceeded)
            } else if land_doc_hash@ != sha256_digest(doc_preimage) {
                Some(Fault::Farmer(FarmerError::HashMismatch))
            } else if self.spec_farmers().contains_key(wallet) {
                Some(Fault::Farmer(FarmerError::FarmerAlreadyRegistered))
            } else {
                None
            },
        }
    }

    /// The refusal, if any, of `wallet` setting its availability.
    pub open spec fn set_available_error(&self, signers: Signers, platform_paused: bool, wallet: AccountId) -> Option<Fault> {
        match self.pause_error(platform_paused) {
            Some(f) => Some(f),
            None => if !signers.authorizes(wallet) {
                Some(Fault::Unauthorized(wallet))
            } else if self.spec_is_frozen(wallet) {
                Some(Fault::Farmer(FarmerError::FarmerFrozen))
            } else if !self.spec_farmers().contains_key(wallet) {
                Some(Fault::Farmer(FarmerError::FarmerNotRegistered))
            } else {
                None
            },
        }
    }

    /// The refusal, if any, of updating `wallet`'s profile through `validator`.
    pub open spec fn update_error(
        &self,
        signers: Signers,
        platform_paused: bool,
        validator: AccountId,
        wallet: AccountId,
        land_doc_hash: [u8; 32],
        doc_preimage: Seq<u8>,
        region: Seq<char>,
    ) -> Option<Fault> {
        match self.pause_error(platform_paused) {
            Some(f) => Some(f),
            None => if !signers.authorizes(validator) {
                Some(Fault::Unauthorized(validator))
            } else if !signers.authorizes(wallet) {
                Some(Fault::Unauthorized(wallet))
            } else if self.spec_is_frozen(wallet) {
                Some(Fault::Farmer(FarmerError::FarmerFrozen))
            } else if !self.spec_is_validator(validator) {
                Some(Fault::Farmer(FarmerError::NotValidator))
            } else if !valid_region(region) {
                Some(Fault::Farmer(FarmerError::InvalidRegion))
            } else if doc_preimage.len() > MAX_HASH_INPUT_BYTES {
                Some(Fault::BudgetExceeded)
            } else if land_doc_hash@ != sha256_digest(doc_preimage) {
                Some(Fault::Farmer(FarmerError::HashMismatch))
            } else if !self.spec_farmers().contains_key(wallet) {
                Some(Fault::Farmer(FarmerError::FarmerNotRegistered))
            } else {
                None
            },
        }
    }

    /// A validator registers the farmer `wallet_address`, who must also sign.
    /// `land_doc_hash` must be the SHA-256 of `doc_preimage`, which is not
    /// stored. Returns the stored profile; version 0 is archived too.
    pub fn register_farmer(
        &mut self,
        signers: &Signers,
        platform_paused: bool,
        validator: AccountId,
        wallet_address: AccountId,
        land_doc_hash: [u8; 32],
        doc_preimage: &[u8],
        region_geohash: String,
        now: u64,
    ) -> (r: Result<FarmerProfile, Fault>)
        requires
            old(self).wf(),
        ensures
            final(self).wf(),
            match old(self).register_error(*signers, platform_paused, validator, wallet_address, land_doc_hash,
                doc_preimage@, region_geohash@) {
                Some(f) => r == Err::<FarmerProfile, Fault>(f) && *final(self) == *old(self),
                None => {
                    let profile = FarmerProfile {
                        wallet_address,
                        land_doc_hash,
                        region_geohash,
                        registered_at: now,
                    };
                    &&& r == Ok::<FarmerProfile, Fault>(profile)
                    &&& final(self).spec_farmers() == old(self).spec_farmers().insert(wallet_address, profile)
                    &&& final(self).spec_history() == old(self).spec_history().insert(
                        HistoryKey { wallet: wallet_address, version: 0 },
                        ProfileHistoryEntry { version: 0, profile, updated_at: now },
                    )
                    &&& forall|a: AccountId| #[trigger] final(self).spec_version(a)
                        == if a == wallet_address { 0 } else { old(self).spec_version(a) }
                },
            },
            r is Ok ==> valid_region(region_geohash@),
            final(self).same_roles(old(self)),
            final(self).same_availability(old(self)),
            final(self).same_plots(old(self)),
            final(self).same_tenures(old(self)),
            old(self).hashes_are_digests() ==> final(self).hashes_are_digests(),
            old(self).regions_are_approved() ==> final(self).regions_are_approved(),
    {
        self.check_not_paused(platform_paused)?;
        signers.require_auth(validator)?;
        signers.require_auth(wallet_address)?;
        self.check_validator(validator)?;
        if !is_valid_region(&region_geohash) {
            return Err(Fault::Farmer(FarmerError::InvalidRegion));
        }
        if doc_preimage.len() > MAX_HASH_INPUT_BYTES {
            return Err(Fault::BudgetExceeded);
        }
        if !Self::digest_matches(doc_preimage, &land_doc_hash) {
            return Err(Fault::Farmer(FarmerError::HashMismatch));
        }
        if self.farmers.contains_key(&wallet_address) {
            return Err(Fault::Farmer(FarmerError::FarmerAlreadyRegistered));
        }
        let ghost prev = *self;
        let profile = FarmerProfile { wallet_address, land_doc_hash, region_geohash, registered_at: now };
        self.farmers.insert(wallet_address, profile.duplicate());
        let version: u32 = 0;
        self.history.insert(
            HistoryKey { wallet: wallet_address, version },
            ProfileHistoryEntry { version, profile: profile.duplicate(), updated_at: now },
        );
        self.versions.insert(wallet_address, version);
        proof {
            if prev.regions_are_approved() {
                assert forall|k: HistoryKey| #[trigger] self.spec_history().contains_key(k)
                    implies valid_region(self.spec_history()[k].profile.region_geohash@) by {
                    if k != (HistoryKey { wallet: wallet_address, version: 0 }) {
                        assert(prev.spec_history().contains_key(k));
                    }
                }
            }
            if prev.hashes_are_digests() {
                assert(is_some_digest(land_doc_hash)) by {
                    assert(land_doc_hash@ == sha256_digest(doc_preimage@));
                }
                assert forall|k: HistoryKey| #[trigger] self.spec_history().contains_key(k)
                    implies is_some_digest(self.spec_history()[k].profile.land_doc_hash) by {
                    if k != (HistoryKey { wallet: wallet_address, version: 0 }) {
                        assert(prev.spec_history().contains_key(k));
                    }
                }
            }
        }
        Ok(profile)
    }

    /// A validator updates `wallet_address`'s profile; the farmer must also
    /// sign and must not be frozen. The previous profile is archived under
    /// the current version, and the version number goes up by one.
    pub fn update_profile(
        &mut self,
        signers: &Signers,
        platform_paused: bool,
        validator: AccountId,
        wallet_address: AccountId,
        new_land_doc_hash: [u8; 32],
        new_doc_preimage: &[u8],
        new_region_geohash: String,
        now: u64,
    ) -> (r: Result<FarmerProfile, Fault>)
        requires
            old(self).wf(),
            old(self).spec_version(wallet_address) < u32::MAX,
        ensures
            final(self).wf(),
            match old(self).update_error(*signers, platform_paused, validator, wallet_address, new_land_doc_hash,
                new_doc_preimage@, new_region_geohash@) {
                Some(f) => r == Err::<FarmerProfile, Fault>(f) && *final(self) == *old(self),
                None => {
                    let previous = old(self).spec_farmers()[wallet_address];
                    let version = old(self).spec_version(wallet_address);
                    let profile = FarmerProfile {
                        wallet_address,
                        land_doc_hash: new_land_doc_hash,
                        region_geohash: new_region_geohash,
                        registered_at: previous.registered_at,
                    };
                    &&& r == Ok::<FarmerProfile, Fault>(profile)
                    &&& final(self).spec_farmers() == old(self).spec_farmers().insert(wallet_address, profile)
                    &&& final(self).spec_history() == old(self).spec_history().insert(
                        HistoryKey { wallet: wallet_address, version },
                        ProfileHistoryEntry { version, profile: previous, updated_at: now },
                    )
                    &&& forall|a: AccountId| #[trigger] final(self).spec_version(a)
                        == if a == wallet_address { (version + 1) as u32 } else { old(self).spec_version(a) }
                },
            },
            r is Ok ==> valid_region(new_region_geohash@),
            final(self).same_roles(old(self)),
            final(self).same_availability(old(self)),
            final(self).same_plots(old(self)),
            final(self).same_tenures(old(self)),
            old(self).hashes_are_digests() ==> final(self).hashes_are_digests(),
            old(self).regions_are_approved() ==> final(self).regions_are_approved(),
    {
        self.check_not_paused(platform_paused)?;
        signers.require_auth(validator)?;
        signers.require_auth(wallet_address)?;
        self.check_not_frozen(wallet_address)?;
        self.check_validator(validator)?;
        if !is_valid_region(&new_region_geohash) {
            return Err(Fault::Farmer(FarmerError::InvalidRegion));
        }
        if new_doc_preimage.len() > MAX_HASH_INPUT_BYTES {
            return Err(Fault::BudgetExceeded);
        }
        if !Self::digest_matches(new_doc_preimage, &new_land_doc_hash) {
            return Err(Fault::Farmer(FarmerError::HashMismatch));
        }
        let previous = match self.farmers.get(&wallet_address) {
            Some(p) => p.duplicate(),
            None => return Err(Fault::Farmer(FarmerError::FarmerNotRegistered)),
        };
        let ghost prev = *self;
        let old_version: u32 = match self.versions.get(&wallet_address) {
            Some(v) => *v,
            None => 0,
        };
        let new_version = old_version + 1;
        self.versions.insert(wallet_address, new_version);
        let registered_at = previous.registered_at;
        self.history.insert(
            HistoryKey { wallet: wallet_address, version: old_version },
            ProfileHistoryEntry { version: old_version, profile: previous, updated_at: now },
        );
        let profile = FarmerProfile {
            wallet_address,
            land_doc_hash: new_land_doc_hash,
            region_geohash: new_region_geohash,
            registered_at,
        };
        self.farmers.insert(wallet_address, profile.duplicate());
        proof {
            if prev.regions_are_approved() {
                assert(prev.spec_farmers().contains_key(wallet_address));
                assert forall|k: HistoryKey| #[trigger] self.spec_history().contains_key(k)
                    implies valid_region(self.spec_history()[k].profile.region_geohash@) by {
                    if k != (HistoryKey { wallet: wallet_address, version: old_version }) {
                        assert(prev.spec_history().contains_key(k));
                    }
                }
            }
            if prev.hashes_are_digests() {
                assert(is_some_digest(new_land_doc_hash)) by {
                    assert(new_land_doc_hash@ == sha256_digest(new_doc_preimage@));
                }
                assert(prev.spec_farmers().contains_key(wallet_address));
                assert forall|k: HistoryKey| #[trigger] self.spec_history().contains_key(k)
                    implies is_some_digest(self.spec_history()[k].profile.land_doc_hash) by {
                    if k != (HistoryKey { wallet: wallet_address, version: old_version }) {
                        assert(prev.spec_history().contains_key(k));
                    }
                }
            }
        }
        Ok(profile)
    }

    /// Public read: the profile's hash, region and registration time,
    /// without the wallet address.
    pub fn get_farmer(&self, wallet_address: AccountId) -> (r: Option<PublicFarmerView>)
        requires
            self.wf(),
        ensures
            r == (if self.spec_farmers().contains_key(wallet_address) {
                let p = self.spec_farmers()[wallet_address];
                Some(PublicFarmerView {
                    land_doc_hash: p.land_doc_hash,
                    region_geohash: p.region_geohash,
                    registered_at: p.registered_at,
                })
            } else {
                None
            }),
    {
        match self.farmers.get(&wallet_address) {
            Some(p) => Some(PublicFarmerView {
                land_doc_hash: p.land_doc_hash,
                region_geohash: p.region_geohash.clone(),
                registered_at: p.registered_at,
            }),
            None => None,
        }
    }

    /// Validator-gated read of the full profile.
    pub fn get_farmer_verified(&self, signers: &Signers, validator: AccountId, wallet_address: AccountId) -> (r: Result<FarmerProfile, Fault>)
        requires
            self.wf(),
        ensures
            r == (if !signers.authorizes(validator) {
                Err::<FarmerProfile, Fault>(Fault::Unauthorized(validator))
            } else if !self.spec_is_validator(validator) {
                Err::<FarmerProfile, Fault>(Fault::Farmer(FarmerError::NotValidator))
            } else if !self.spec_farmers().contains_key(wallet_address) {
                Err::<FarmerProfile, Fault>(Fault::Farmer(FarmerError::FarmerNotRegistered))
            } else {
                Ok::<FarmerProfile, Fault>(self.spec_farmers()[wallet_address])
            }),
    {
        signers.require_auth(validator)?;
        self.check_validator(validator)?;
        match self.farmers.get(&wallet_address) {
            Some(p) => Ok(p.duplicate()),
            None => Err(Fault::Farmer(FarmerError::FarmerNotRegistered)),
        }
    }

    /// Validator-gated read of the archived profile at `version`.
    pub fn get_profile_history(&self, signers: &Signers, validator: AccountId, wallet_address: AccountId, version: u32) -> (r: Result<Option<ProfileHistoryEntry>, Fault>)
        requires
            self.wf(),
        ensures
            ({
                let k = HistoryKey { wallet: wallet_address, version };
                r == (if !signers.authorizes(validator) {
                    Err::<Option<ProfileHistoryEntry>, Fault>(Fault::Unauthorized(validator))
                } else if !self.spec_is_validator(validator) {
                    Err::<Option<ProfileHistoryEntry>, Fault>(Fault::Farmer(FarmerError::NotValidator))
                } else if self.spec_history().contains_key(k) {
                    Ok::<Option<ProfileHistoryEntry>, Fault>(Some(self.spec_history()[k]))
                } else {
                    Ok::<Option<ProfileHistoryEntry>, Fault>(None)
                })
            }),
    {
        signers.require_auth(validator)?;
        self.check_validator(validator)?;
        match self.history.get(&HistoryKey { wallet: wallet_address, version }) {
            Some(e) => Ok(Some(e.duplicate())),
            None => Ok(None),
        }
    }

    /// The current profile version of `wallet_address`.
    pub fn get_version(&self, wallet_address: AccountId) -> (r: u32)
        requires
            self.wf(),
        ensures
            r == self.spec_version(wallet_address),
    {
        match self.versions.get(&wallet_address) {
            Some(v) => *v,
            None => 0,
        }
    }

    /// Whether a profile exists for `wallet_address`.
    pub fn is_registered(&self, wallet_address: AccountId) -> (r: bool)
        requires
            self.wf(),
        ensures
            r == self.spec_farmers().contains_key(wallet_address),
    {
        self.farmers.contains_key(&wallet_address)
    }

    /// The farmer opts in or out of new jobs.
    pub fn set_available(&mut self, signers: &Signers, platform_paused: bool, wallet_address: AccountId, available: bool) -> (r: Result<(), Fault>)
        requires
            old(self).wf(),
        ensures
            final(self).wf(),
            ({
                match old(self).set_available_error(*signers, platform_paused, wallet_address) {
                    Some(f) => r == Err::<(), Fault>(f) && *final(self) == *old(self),
                    None => r is Ok && forall|a: AccountId| #[trigger] final(self).spec_available(a)
                        == if a == wallet_address { available } else { old(self).spec_available(a) },
                }
            }),
            final(self).same_roles(old(self)),
            final(self).same_profiles(old(self)),
            final(self).same_plots(old(self)),
            final(self).same_tenures(old(self)),
            old(self).hashes_are_digests() ==> final(self).hashes_are_digests(),
            old(self).regions_are_approved() ==> final(self).regions_are_approved(),
    {
        self.check_not_paused(platform_paused)?;
        signers.require_auth(wallet_address)?;
        self.check_not_frozen(wallet_address)?;
        if !self.farmers.contains_key(&wallet_address) {
            return Err(Fault::Farmer(FarmerError::FarmerNotRegistered));
        }
        let ghost prev = *self;
        self.availability.insert(wallet_address, available);
        proof {
            assert(self.spec_farmers() == prev.spec_farmers());
            assert(self.spec_history() == prev.spec_history());
        }
        Ok(())
    }

    /// Whether the farmer accepts new jobs; `true` unless opted out.
    pub fn is_available(&self, wallet_address: AccountId) -> (r: bool)
        requires
            self.wf(),
        ensures
            r == self.spec_available(wallet_address),
    {
        match self.availability.get(&wallet_address) {
            Some(a) => *a,
            None => true,
        }
    }

    /// The farmer registers a plot polygon of 3 to 50 vertices.
    pub fn register_plot(
        &mut self,
        signers: &Signers,
        farmer: AccountId,
        plot_id: [u8; 32],
        coordinates: Vec<(i64, i64)>,
        area_sqm: u64,
        now: u64,
    ) -> (r: Result<(), Fault>)
        requires
            old(self).wf(),
        ensures
            final(self).wf(),
            ({
                let n = coordinates@.len();
                let refusal = if !signers.authorizes(farmer) {
                    Some(Fault::Unauthorized(farmer))
                } else if old(self).spec_is_frozen(farmer) {
                    Some(Fault::Farmer(FarmerError::FarmerFrozen))
                } else if n < MIN_PLOT_VERTICES || n > MAX_PLOT_VERTICES {
                    Some(Fault::Farmer(FarmerError::InvalidCoordinatesCount))
                } else if old(self).spec_plots().contains_key(plot_id) {
                    Some(Fault::Farmer(FarmerError::PlotAlreadyExists))
                } else {
                    None
                };
                match refusal {
                    Some(f) => r == Err::<(), Fault>(f) && *final(self) == *old(self),
                    None => {
                        &&& r is Ok
                        &&& final(self).spec_plots().contains_key(plot_id)
                        &&& final(self).spec_plots()[plot_id]@ == (PlotView {
                            plot_id,
                            farmer_id: farmer,
                            coordinates: coordinates@,
                            area_sqm,
                            registered_at: now,
                        })
                        &&& final(self).spec_plots() == old(self).spec_plots().insert(plot_id, final(self).spec_plots()[plot_id])
                        &&& forall|a: AccountId| #[trigger] final(self).spec_plot_ids(a)
                            == if a == farmer { old(self).spec_plot_ids(a).push(plot_id) } else { old(self).spec_plot_ids(a) }
                        &&& records_listed(final(self).spec_plot_ids(farmer), final(self).spec_plots())
                            == records_listed(old(self).spec_plot_ids(farmer), old(self).spec_plots()).push(final(self).spec_plots()[plot_id])
                    },
                }
            }),
            final(self).same_roles(old(self)),
            final(self).same_profiles(old(self)),
            final(self).same_availability(old(self)),
            final(self).same_tenures(old(self)),
            old(self).hashes_are_digests() ==> final(self).hashes_are_digests(),
            old(self).regions_are_approved() ==> final(self).regions_are_approved(),
    {
        signers.require_auth(farmer)?;
        self.check_not_frozen(farmer)?;
        let n = coordinates.len();
        if n < MIN_PLOT_VERTICES || n > MAX_PLOT_VERTICES {
            return Err(Fault::Farmer(FarmerError::InvalidCoordinatesCount));
        }
        if self.plots.contains_key(&plot_id) {
            return Err(Fault::Farmer(FarmerError::PlotAlreadyExists));
        }
        let ghost prev = *self;
        let plot = FarmPlot { plot_id, farmer_id: farmer, coordinates, area_sqm, registered_at: now };
        self.plots.insert(plot_id, plot);
        append_to_list(&mut self.farmer_plots, farmer, plot_id);
        proof {
            let ids = prev.spec_plot_ids(farmer);
            assert forall|j: int| 0 <= j < ids.len() implies prev.plots@.contains_key(#[trigger] ids[j]) by {
                assert(list_of(prev.farmer_plots@, farmer)[j] == ids[j]);
            }
            lemma_records_listed_append(ids, prev.plots@, plot_id, self.plots@[plot_id]);
            assert(self.spec_plot_ids(farmer) == ids.push(plot_id));
            assert forall|a: AccountId, j: int| 0 <= j < list_of(self.farmer_plots@, a).len()
                implies self.plots@.contains_key(#[trigger] list_of(self.farmer_plots@, a)[j]) by {
                if a == farmer && j == list_of(prev.farmer_plots@, a).len() {
                } else {
                    assert(list_of(self.farmer_plots@, a)[j] == list_of(prev.farmer_plots@, a)[j]);
                }
            }
            assert(self.spec_farmers() == prev.spec_farmers());
            assert(self.spec_history() == prev.spec_history());
        }
        Ok(())
    }

    /// The plots `farmer_id` registered, in order.
    pub fn get_plots_by_farmer(&self, farmer_id: AccountId) -> (r: Vec<FarmPlot>)
        requires
            self.wf(),
        ensures
            r@.len() == records_listed(self.spec_plot_ids(farmer_id), self.spec_plots()).len(),
            forall|i: int| 0 <= i < r@.len() ==> #[trigger] r@[i]@ == records_listed(self.spec_plot_ids(farmer_id), self.spec_plots())[i]@,
    {
        let empty: Vec<[u8; 32]> = Vec::new();
        let ids = match self.farmer_plots.get(&farmer_id) {
            Some(ids) => ids,
            None => &empty,
        };
        list_records(ids, &self.plots)
    }

    /// A validator verifies a land title for `farmer`; both must sign and
    /// the farmer must not be frozen. Returns the stored record.
    pub fn verify_land_tenure(
        &mut self,
        signers: &Signers,
        platform_paused: bool,
        validator: AccountId,
        farmer: AccountId,
        title_id: [u8; 32],
        land_title_hash: [u8; 32],
        validator_signature: Vec<u8>,
        now: u64,
    ) -> (r: Result<LandTenureVerification, Fault>)
        requires
            old(self).wf(),
        ensures
            final(self).wf(),
            ({
                let refusal = match old(self).pause_error(platform_paused) {
                    Some(f) => Some(f),
                    None => if !signers.authorizes(validator) {
                        Some(Fault::Unauthorized(validator))
                    } else if !signers.authorizes(farmer) {
                        Some(Fault::Unauthorized(farmer))
                    } else if !old(self).spec_is_validator(validator) {
                        Some(Fault::Farmer(FarmerError::NotValidator))
                    } else if old(self).spec_is_frozen(farmer) {
                        Some(Fault::Farmer(FarmerError::FarmerFrozen))
                    } else if old(self).spec_tenures().contains_key(title_id) {
                        Some(Fault::Farmer(FarmerError::LandTenureAlreadyExists))
                    } else {
                        None
                    },
                };
                let expected = TenureView {
                    title_id,
                    land_title_hash,
                    farmer_id: farmer,
                    validator_signature: validator_signature@,
                    verified_at: now,
                    is_verified: true,
                };
                match refusal {
                    Some(f) => r == Err::<LandTenureVerification, Fault>(f) && *final(self) == *old(self),
                    None => {
                        &&& r matches Ok(v) && v@ == expected
                        &&& final(self).spec_tenures().contains_key(title_id)
                        &&& final(self).spec_tenures()[title_id]@ == expected
                        &&& final(self).spec_tenures() == old(self).spec_tenures().insert(title_id, final(self).spec_tenures()[title_id])
                        &&& forall|a: AccountId| #[trigger] final(self).spec_tenure_ids(a)
                            == if a == farmer { old(self).spec_tenure_ids(a).push(title_id) } else { old(self).spec_tenure_ids(a) }
                        &&& records_listed(final(self).spec_tenure_ids(farmer), final(self).spec_tenures())
                            == records_listed(old(self).spec_tenure_ids(farmer), old(self).spec_tenures()).push(final(self).spec_tenures()[title_id])
                    },
                }
            }),
            final(self).same_roles(old(self)),
            final(self).same_profiles(old(self)),
            final(self).same_availability(old(self)),
            final(self).same_plots(old(self)),
            old(self).hashes_are_digests() ==> final(self).hashes_are_digests(),
            old(self).regions_are_approved() ==> final(self).regions_are_approved(),
    {
        self.check_not_paused(platform_paused)?;
        signers.require_auth(validator)?;
        signers.require_auth(farmer)?;
        self.check_validator(validator)?;
        self.check_not_frozen(farmer)?;
        if self.tenures.contains_key(&title_id) {
            return Err(Fault::Farmer(FarmerError::LandTenureAlreadyExists));
        }
        let verification = LandTenureVerification {
            title_id,
            land_title_hash,
            farmer_id: farmer,
            validator_signature,
            verified_at: now,
            is_verified: true,
        };
        let ghost prev = *self;
        let stored = verification.duplicate();
        self.tenures.insert(title_id, stored);
        append_to_list(&mut self.farmer_tenures, farmer, title_id);
        proof {
            let ids = prev.spec_tenure_ids(farmer);
            assert forall|j: int| 0 <= j < ids.len() implies prev.tenures@.contains_key(#[trigger] ids[j]) by {
                assert(list_of(prev.farmer_tenures@, farmer)[j] == ids[j]);
            }
            lemma_records_listed_append(ids, prev.tenures@, title_id, self.tenures@[title_id]);
            assert(self.spec_tenure_ids(farmer) == ids.push(title_id));
            assert forall|a: AccountId, j: int| 0 <= j < list_of(self.farmer_tenures@, a).len()
                implies self.tenures@.contains_key(#[trigger] list_of(self.farmer_tenures@, a)[j]) by {
                if a == farmer && j == list_of(prev.farmer_tenures@, a).len() {
                } else {
                    assert(list_of(self.farmer_tenures@, a)[j] == list_of(prev.farmer_tenures@, a)[j]);
                }
            }
            assert(self.spec_farmers() == prev.spec_farmers());
            assert(self.spec_history() == prev.spec_history());
        }
        Ok(verification)
    }

    /// The land tenure record of `title_id`, if verified.
    pub fn get_land_tenure(&self, title_id: [u8; 32]) -> (r: Option<LandTenureVerification>)
        requires
            self.wf(),
        ensures
            match r {
                Some(v) => self.spec_tenures().contains_key(title_id) && v@ == self.spec_tenures()[title_id]@,
                None => !self.spec_tenures().contains_key(title_id),
            },
    {
        match self.tenures.get(&title_id) {
            Some(t) => Some(t.duplicate()),
            None => None,
        }
    }

    /// The land tenures verified for `farmer`, in order.
    pub fn get_farmer_land_tenures(&self, farmer: AccountId) -> (r: Vec<LandTenureVerification>)
        requires
            self.wf(),
        ensures
            r@.len() == records_listed(self.spec_tenure_ids(farmer), self.spec_tenures()).len(),
            forall|i: int| 0 <= i < r@.len() ==> #[trigger] r@[i]@ == records_listed(self.spec_tenure_ids(farmer), self.spec_tenures())[i]@,
    {
        let empty: Vec<[u8; 32]> = Vec::new();
        let ids = match self.farmer_tenures.get(&farmer) {
            Some(ids) => ids,
            None => &empty,
        };
        list_records(ids, &self.tenures)
    }
}

/// Emergency freeze: while a wallet is frozen, no profile update for it is
/// accepted, whoever signs and whatever document is presented.
pub proof fn law_frozen_profile_cannot_change(
    reg: &FarmerRegistry,
    signers: Signers,
    platform_paused: bool,
    validator: AccountId,
    wallet: AccountId,
    land_doc_hash: [u8; 32],
    doc_preimage: Seq<u8>,
    region: Seq<char>,
)
    requires
        reg.spec_is_frozen(wallet),
    ensures
        reg.update_error(signers, platform_paused, validator, wallet, land_doc_hash, doc_preimage, region) is Some,
{
}


/// Availability is opt-out and per farmer: a wallet never registered has
/// never set a flag, so a farmer is available from registration on until it
/// opts out.
pub proof fn law_default_availability(reg: &FarmerRegistry, wallet: AccountId)
    requires
        reg.wf(),
        !reg.spec_farmers().contains_key(wallet),
    ensures
        reg.spec_available(wallet),
{
}

/// Every registered, unfrozen farmer who signs while the platform runs may
/// set its availability; an unregistered one is refused with
/// `FarmerNotRegistered` and a frozen one with `FarmerFrozen`. What a
/// successful call changes is that farmer's flag alone (see
/// `FarmerRegistry::set_available`).
pub proof fn law_set_available_gate(reg: &FarmerRegistry, signers: Signers, platform_paused: bool, wallet: AccountId)
    requires
        reg.pause_error(platform_paused) is None,
        signers.authorizes(wallet),
    ensures
        reg.spec_is_frozen(wallet) ==> reg.set_available_error(signers, platform_paused, wallet)
            == Some(Fault::Farmer(FarmerError::FarmerFrozen)),
        !reg.spec_is_frozen(wallet) && !reg.spec_farmers().contains_key(wallet)
            ==> reg.set_available_error(signers, platform_paused, wallet) == Some(Fault::Farmer(FarmerError::FarmerNotRegistered)),
        !reg.spec_is_frozen(wallet) && reg.spec_farmers().contains_key(wallet)
            ==> reg.set_available_error(signers, platform_paused, wallet) is None,
{
}


/// A profile is registered or updated only with one of the approved
/// Northern Nigeria prefixes `s0`..`s8`; with any other region a request that
/// passes the pause, signature, freeze and validator checks is refused with
/// `InvalidRegion`.
pub proof fn law_profiles_need_an_approved_region(
    reg: &FarmerRegistry,
    signers: Signers,
    platform_paused: bool,
    validator: AccountId,
    wallet: AccountId,
    land_doc_hash: [u8; 32],
    doc_preimage: Seq<u8>,
    region: Seq<char>,
)
    ensures
        reg.register_error(signers, platform_paused, validator, wallet, land_doc_hash, doc_preimage, region) is None
            ==> (region == "s0"@ || region == "s1"@ || region == "s2"@ || region == "s3"@ || region == "s4"@
            || region == "s5"@ || region == "s6"@ || region == "s7"@ || region == "s8"@),
        reg.update_error(signers, platform_paused, validator, wallet, land_doc_hash, doc_preimage, region) is None
            ==> (region == "s0"@ || region == "s1"@ || region == "s2"@ || region == "s3"@ || region == "s4"@
            || region == "s5"@ || region == "s6"@ || region == "s7"@ || region == "s8"@),
        !(region == "s0"@ || region == "s1"@ || region == "s2"@ || region == "s3"@ || region == "s4"@
            || region == "s5"@ || region == "s6"@ || region == "s7"@ || region == "s8"@) && reg.pause_error(platform_paused) is None && signers.authorizes(validator) && signers.authorizes(wallet)
            && reg.spec_is_validator(validator)
            ==> reg.register_error(signers, platform_paused, validator, wallet, land_doc_hash, doc_preimage, region)
                == Some(Fault::Farmer(FarmerError::InvalidRegion)),
        !(region == "s0"@ || region == "s1"@ || region == "s2"@ || region == "s3"@ || region == "s4"@
            || region == "s5"@ || region == "s6"@ || region == "s7"@ || region == "s8"@) && reg.pause_error(platform_paused) is None && signers.authorizes(validator) && signers.authorizes(wallet)
            && !reg.spec_is_frozen(wallet) && reg.spec_is_validator(validator)
            ==> reg.update_error(signers, platform_paused, validator, wallet, land_doc_hash, doc_preimage, region)
                == Some(Fault::Farmer(FarmerError::InvalidRegion)),
{
}

/// In a registry whose profiles all lie in approved regions, every stored
/// profile, current or archived, names one of `s0`..`s8`.
pub proof fn law_stored_regions_are_approved(reg: &FarmerRegistry, wallet: AccountId, k: HistoryKey)
    requires
        reg.regions_are_approved(),
    ensures
        reg.spec_farmers().contains_key(wallet) ==> ({
            let region = reg.spec_farmers()[wallet].region_geohash@;
            region == "s0"@ || region == "s1"@ || region == "s2"@ || region == "s3"@ || region == "s4"@
            || region == "s5"@ || region == "s6"@ || region == "s7"@ || region == "s8"@
        }),
        reg.spec_history().contains_key(k) ==> ({
            let region = reg.spec_history()[k].profile.region_geohash@;
            region == "s0"@ || region == "s1"@ || region == "s2"@ || region == "s3"@ || region == "s4"@
            || region == "s5"@ || region == "s6"@ || region == "s7"@ || region == "s8"@
        }),
{
}

} // verus!
