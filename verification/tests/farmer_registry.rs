use harvesta::common::{AccountId, Fault, Signers};
use harvesta::farmer_registry::FarmerRegistry;
use harvesta::harvesta_errors::{FarmerError, HarvestaError};

const ADMIN: AccountId = AccountId(1);
const CONTROLS: AccountId = AccountId(2);
const VALIDATOR: AccountId = AccountId(3);

fn all() -> Signers {
    Signers::everyone()
}

fn setup() -> FarmerRegistry {
    let mut r = FarmerRegistry::new();
    r.initialize(ADMIN, CONTROLS).unwrap();
    r.register_validator(&all(), false, ADMIN, VALIDATOR).unwrap();
    r
}

fn sha256(data: &[u8]) -> [u8; 32] {
    let env = soroban_sdk::Env::default();
    env.crypto().sha256(&soroban_sdk::Bytes::from_slice(&env, data)).to_array()
}

/// A deterministic 64-byte document and its SHA-256 digest.
fn doc(seed: u8) -> (Vec<u8>, [u8; 32]) {
    let mut raw = [0u8; 64];
    raw[0] = seed;
    raw[63] = seed.wrapping_add(1);
    let hash = sha256(&raw);
    (raw.to_vec(), hash)
}

fn region(s: &str) -> String {
    s.to_string()
}

fn register(r: &mut FarmerRegistry, farmer: AccountId, seed: u8, reg: &str) -> [u8; 32] {
    let (p, h) = doc(seed);
    r.register_farmer(&all(), false, VALIDATOR, farmer, h, &p, region(reg), 100).unwrap();
    h
}

fn triangle() -> Vec<(i64, i64)> {
    vec![(1000000, 2000000), (1000000, 2000001), (1000001, 2000000)]
}

fn expect_code(f: Fault, code: u32) {
    assert_eq!(f.contract_code(), Some(code));
}

// ── validator management ─────────────────────────────────────────────────

#[test]
fn test_register_and_is_validator() {
    let mut r = setup();
    let new_val = AccountId(50);
    assert!(!r.is_validator(new_val));
    r.register_validator(&all(), false, ADMIN, new_val).unwrap();
    assert!(r.is_validator(new_val));
}

#[test]
fn test_revoke_validator() {
    let mut r = setup();
    assert!(r.is_validator(VALIDATOR));
    r.revoke_validator(&all(), false, ADMIN, VALIDATOR).unwrap();
    assert!(!r.is_validator(VALIDATOR));
}

#[test]
fn test_register_validator_non_admin_rejected() {
    let mut r = setup();
    let attacker = AccountId(66);
    let target = AccountId(67);
    let e = r.register_validator(&all(), false, attacker, target).unwrap_err();
    assert_eq!(e, Fault::Shared(HarvestaError::Unauthorized));
    expect_code(e, 3);
    assert!(!r.is_validator(target));
}

// ── registration ─────────────────────────────────────────────────────────

#[test]
fn test_register_and_get_public_view() {
    let mut r = setup();
    let farmer = AccountId(10);
    let hash = register(&mut r, farmer, 1, "s1");
    assert!(r.is_registered(farmer));
    let view = r.get_farmer(farmer).unwrap();
    assert_eq!(view.land_doc_hash, hash);
    assert_eq!(view.region_geohash, region("s1"));
}

#[test]
fn test_get_farmer_verified_returns_full_profile() {
    let mut r = setup();
    let farmer = AccountId(10);
    let hash = register(&mut r, farmer, 2, "s2");
    let full = r.get_farmer_verified(&all(), VALIDATOR, farmer).unwrap();
    assert_eq!(full.wallet_address, farmer);
    assert_eq!(full.land_doc_hash, hash);
}

#[test]
fn test_get_farmer_verified_non_validator_rejected() {
    let mut r = setup();
    let farmer = AccountId(10);
    register(&mut r, farmer, 3, "s1");
    let attacker = AccountId(66);
    let e = r.get_farmer_verified(&all(), attacker, farmer).unwrap_err();
    assert_eq!(e, Fault::Farmer(FarmerError::NotValidator));
    expect_code(e, 6);
}

#[test]
fn test_double_registration_rejected() {
    let mut r = setup();
    let farmer = AccountId(10);
    register(&mut r, farmer, 1, "s1");
    let (p2, h2) = doc(2);
    let e = r.register_farmer(&all(), false, VALIDATOR, farmer, h2, &p2, region("s2"), 200).unwrap_err();
    assert_eq!(e, Fault::Farmer(FarmerError::FarmerAlreadyRegistered));
    expect_code(e, 1);
}

#[test]
fn test_invalid_region_rejected() {
    let mut r = setup();
    let farmer = AccountId(10);
    let (p, h) = doc(1);
    let e = r.register_farmer(&all(), false, VALIDATOR, farmer, h, &p, region("e7"), 100).unwrap_err();
    assert_eq!(e, Fault::Farmer(FarmerError::InvalidRegion));
    expect_code(e, 3);
    assert!(!r.is_registered(farmer));
}

#[test]
fn test_register_farmer_non_validator_rejected() {
    let mut r = setup();
    let attacker = AccountId(66);
    let farmer = AccountId(10);
    let (p, h) = doc(1);
    let e = r.register_farmer(&all(), false, attacker, farmer, h, &p, region("s1"), 100).unwrap_err();
    assert_eq!(e, Fault::Farmer(FarmerError::NotValidator));
    expect_code(e, 6);
}

// ── SHA-256 integrity ────────────────────────────────────────────────────

#[test]
fn test_hash_mismatch_on_register_rejected() {
    let mut r = setup();
    let farmer = AccountId(10);
    let (preimage, _real_hash) = doc(1);
    let wrong_hash = [0xdeu8; 32];
    let e = r.register_farmer(&all(), false, VALIDATOR, farmer, wrong_hash, &preimage, region("s1"), 100).unwrap_err();
    assert_eq!(e, Fault::Farmer(FarmerError::HashMismatch));
    expect_code(e, 7);
}

#[test]
fn test_hash_mismatch_on_update_rejected() {
    let mut r = setup();
    let farmer = AccountId(10);
    register(&mut r, farmer, 1, "s1");
    let (p2, _real_h2) = doc(2);
    let wrong_hash = [0xadu8; 32];
    let e = r.update_profile(&all(), false, VALIDATOR, farmer, wrong_hash, &p2, region("s2"), 200).unwrap_err();
    assert_eq!(e, Fault::Farmer(FarmerError::HashMismatch));
    expect_code(e, 7);
    assert_eq!(r.get_version(farmer), 0);
}

#[test]
fn test_valid_hash_accepted() {
    let mut r = setup();
    let farmer = AccountId(10);
    register(&mut r, farmer, 5, "s5");
    assert!(r.is_registered(farmer));
}

// ── update_profile ───────────────────────────────────────────────────────

#[test]
fn test_update_profile_changes_current_data() {
    let mut r = setup();
    let farmer = AccountId(10);
    register(&mut r, farmer, 1, "s1");
    let (p2, h2) = doc(2);
    r.update_profile(&all(), false, VALIDATOR, farmer, h2, &p2, region("s2"), 200).unwrap();
    let view = r.get_farmer(farmer).unwrap();
    assert_eq!(view.land_doc_hash, h2);
    assert_eq!(view.region_geohash, region("s2"));
}

#[test]
fn test_update_profile_increments_version() {
    let mut r = setup();
    let farmer = AccountId(10);
    register(&mut r, farmer, 1, "s1");
    assert_eq!(r.get_version(farmer), 0);
    let (p2, h2) = doc(2);
    r.update_profile(&all(), false, VALIDATOR, farmer, h2, &p2, region("s2"), 200).unwrap();
    assert_eq!(r.get_version(farmer), 1);
    let (p3, h3) = doc(3);
    r.update_profile(&all(), false, VALIDATOR, farmer, h3, &p3, region("s3"), 300).unwrap();
    assert_eq!(r.get_version(farmer), 2);
}

#[test]
fn test_profile_history_accessible_to_validator() {
    let mut r = setup();
    let farmer = AccountId(10);
    let h1 = register(&mut r, farmer, 1, "s1");
    let (p2, h2) = doc(2);
    r.update_profile(&all(), false, VALIDATOR, farmer, h2, &p2, region("s2"), 200).unwrap();
    let h = r.get_profile_history(&all(), VALIDATOR, farmer, 0).unwrap().unwrap();
    assert_eq!(h.version, 0u32);
    assert_eq!(h.profile.land_doc_hash, h1);
}

#[test]
fn test_profile_history_non_validator_rejected() {
    let mut r = setup();
    let farmer = AccountId(10);
    register(&mut r, farmer, 1, "s1");
    let attacker = AccountId(66);
    let e = r.get_profile_history(&all(), attacker, farmer, 0).unwrap_err();
    assert_eq!(e, Fault::Farmer(FarmerError::NotValidator));
    expect_code(e, 6);
}

#[test]
fn test_update_profile_unregistered_farmer_rejected() {
    let mut r = setup();
    let stranger = AccountId(77);
    let (p, h) = doc(1);
    let e = r.update_profile(&all(), false, VALIDATOR, stranger, h, &p, region("s1"), 100).unwrap_err();
    assert_eq!(e, Fault::Farmer(FarmerError::FarmerNotRegistered));
    expect_code(e, 2);
}

// ── availability ─────────────────────────────────────────────────────────

#[test]
fn test_default_availability_is_true() {
    let mut r = setup();
    let farmer = AccountId(10);
    register(&mut r, farmer, 1, "s1");
    assert!(r.is_available(farmer));
}

#[test]
fn test_set_available_false() {
    let mut r = setup();
    let farmer = AccountId(10);
    register(&mut r, farmer, 1, "s1");
    r.set_available(&all(), false, farmer, false).unwrap();
    assert!(!r.is_available(farmer));
}

#[test]
fn test_set_available_true_resumes() {
    let mut r = setup();
    let farmer = AccountId(10);
    register(&mut r, farmer, 1, "s1");
    r.set_available(&all(), false, farmer, false).unwrap();
    r.set_available(&all(), false, farmer, true).unwrap();
    assert!(r.is_available(farmer));
}

#[test]
fn test_set_available_unregistered_panics() {
    let mut r = setup();
    let stranger = AccountId(77);
    let e = r.set_available(&all(), false, stranger, false).unwrap_err();
    assert_eq!(e, Fault::Farmer(FarmerError::FarmerNotRegistered));
    expect_code(e, 2);
}

#[test]
fn test_multiple_farmers_independent_availability() {
    let mut r = setup();
    let farmer_a = AccountId(10);
    let farmer_b = AccountId(11);
    register(&mut r, farmer_a, 1, "s1");
    register(&mut r, farmer_b, 2, "s2");
    r.set_available(&all(), false, farmer_a, false).unwrap();
    assert!(!r.is_available(farmer_a));
    assert!(r.is_available(farmer_b));
}

// ── all valid regions ────────────────────────────────────────────────────

#[test]
fn test_all_valid_regions_accepted() {
    let mut r = setup();
    let prefixes = ["s0", "s1", "s2", "s3", "s4", "s5", "s6", "s7", "s8"];
    for (i, prefix) in prefixes.iter().enumerate() {
        let farmer = AccountId(100 + i as u64);
        let (p, h) = doc(i as u8);
        r.register_farmer(&all(), false, VALIDATOR, farmer, h, &p, region(prefix), 100).unwrap();
        assert!(r.is_registered(farmer));
    }
}

// ── farm plots ───────────────────────────────────────────────────────────

#[test]
fn test_register_and_get_plots() {
    let mut r = setup();
    let farmer = AccountId(10);
    let plot_id = [1u8; 32];
    r.register_plot(&all(), farmer, plot_id, triangle(), 1000, 100).unwrap();
    let plots = r.get_plots_by_farmer(farmer);
    assert_eq!(plots.len(), 1);
    let plot = &plots[0];
    assert_eq!(plot.plot_id, plot_id);
    assert_eq!(plot.farmer_id, farmer);
    assert_eq!(plot.area_sqm, 1000);
    assert_eq!(plot.coordinates.len(), 3);
}

#[test]
fn test_invalid_coordinates_count_low() {
    let mut r = setup();
    let farmer = AccountId(10);
    let plot_id = [2u8; 32];
    let coords = vec![(1000000, 2000000), (1000000, 2000001)];
    let e = r.register_plot(&all(), farmer, plot_id, coords, 1000, 100).unwrap_err();
    assert_eq!(e, Fault::Farmer(FarmerError::InvalidCoordinatesCount));
    expect_code(e, 5);
}

#[test]
fn test_invalid_coordinates_count_high() {
    let mut r = setup();
    let farmer = AccountId(10);
    let plot_id = [3u8; 32];
    let mut coords = Vec::new();
    for i in 0..51 {
        coords.push((i as i64, i as i64));
    }
    let e = r.register_plot(&all(), farmer, plot_id, coords, 1000, 100).unwrap_err();
    assert_eq!(e, Fault::Farmer(FarmerError::InvalidCoordinatesCount));
    expect_code(e, 5);
}

#[test]
fn test_duplicate_plot_id() {
    let mut r = setup();
    let farmer = AccountId(10);
    let plot_id = [4u8; 32];
    r.register_plot(&all(), farmer, plot_id, triangle(), 1000, 100).unwrap();
    let e = r.register_plot(&all(), farmer, plot_id, triangle(), 1000, 100).unwrap_err();
    assert_eq!(e, Fault::Farmer(FarmerError::PlotAlreadyExists));
    expect_code(e, 4);
}

// ── emergency freeze ─────────────────────────────────────────────────────

#[test]
fn test_freeze_and_unfreeze() {
    let mut r = setup();
    let farmer = AccountId(10);
    assert!(!r.is_frozen(farmer));
    r.freeze_farmer(&all(), false, ADMIN, farmer).unwrap();
    assert!(r.is_frozen(farmer));
    r.unfreeze_farmer(&all(), false, ADMIN, farmer).unwrap();
    assert!(!r.is_frozen(farmer));
}

#[test]
fn test_freeze_non_admin_rejected() {
    let mut r = setup();
    let attacker = AccountId(66);
    let farmer = AccountId(10);
    let e = r.freeze_farmer(&all(), false, attacker, farmer).unwrap_err();
    assert_eq!(e, Fault::Shared(HarvestaError::Unauthorized));
    expect_code(e, 3);
    assert!(!r.is_frozen(farmer));
}

#[test]
fn test_frozen_farmer_cannot_update_profile() {
    let mut r = setup();
    let farmer = AccountId(10);
    register(&mut r, farmer, 1, "s1");
    r.freeze_farmer(&all(), false, ADMIN, farmer).unwrap();
    let (p2, h2) = doc(2);
    let e = r.update_profile(&all(), false, VALIDATOR, farmer, h2, &p2, region("s2"), 200).unwrap_err();
    assert_eq!(e, Fault::Farmer(FarmerError::FarmerFrozen));
    expect_code(e, 8);
}

#[test]
fn test_frozen_farmer_cannot_set_available() {
    let mut r = setup();
    let farmer = AccountId(10);
    register(&mut r, farmer, 1, "s1");
    r.freeze_farmer(&all(), false, ADMIN, farmer).unwrap();
    let e = r.set_available(&all(), false, farmer, false).unwrap_err();
    assert_eq!(e, Fault::Farmer(FarmerError::FarmerFrozen));
    expect_code(e, 8);
}

#[test]
fn test_frozen_farmer_cannot_register_plot() {
    let mut r = setup();
    let farmer = AccountId(10);
    register(&mut r, farmer, 1, "s1");
    r.freeze_farmer(&all(), false, ADMIN, farmer).unwrap();
    let e = r.register_plot(&all(), farmer, [5u8; 32], triangle(), 1000, 100).unwrap_err();
    assert_eq!(e, Fault::Farmer(FarmerError::FarmerFrozen));
    expect_code(e, 8);
}

// ── land tenure ──────────────────────────────────────────────────────────

#[test]
fn test_verify_land_tenure_success() {
    let mut r = setup();
    let farmer = AccountId(10);
    let title_id = [10u8; 32];
    let land_title_hash = [20u8; 32];
    let signature = vec![1u8, 2, 3, 4];
    let verification = r
        .verify_land_tenure(&all(), false, VALIDATOR, farmer, title_id, land_title_hash, signature, 100)
        .unwrap();
    assert!(verification.is_verified);
    assert_eq!(verification.farmer_id, farmer);
    assert_eq!(verification.land_title_hash, land_title_hash);
    let retrieved = r.get_land_tenure(title_id).unwrap();
    assert_eq!(retrieved.title_id, title_id);
    let farmer_tenures = r.get_farmer_land_tenures(farmer);
    assert_eq!(farmer_tenures.len(), 1);
}

// ── further cases ────────────────────────────────────────────────────────

#[test]
fn farmer_double_initialize_rejected() {
    let mut r = setup();
    let e = r.initialize(AccountId(9), AccountId(9)).unwrap_err();
    assert_eq!(e, Fault::Shared(HarvestaError::AlreadyInitialized));
    expect_code(e, 1);
    // The first admin is still in charge.
    r.register_validator(&all(), false, ADMIN, AccountId(40)).unwrap();
}

#[test]
fn farmer_uninitialized_registry_refuses_writes() {
    let mut r = FarmerRegistry::new();
    let e = r.register_validator(&all(), false, ADMIN, VALIDATOR).unwrap_err();
    assert_eq!(e, Fault::Shared(HarvestaError::NotInitialized));
    expect_code(e, 2);
}

#[test]
fn farmer_platform_pause_blocks_writes() {
    let mut r = setup();
    let farmer = AccountId(10);
    let (p, h) = doc(1);
    let e = r.register_farmer(&all(), true, VALIDATOR, farmer, h, &p, region("s1"), 100).unwrap_err();
    assert_eq!(e, Fault::PlatformPaused);
    assert_eq!(e.contract_code(), None);
    assert!(!r.is_registered(farmer));
    let e = r.register_validator(&all(), true, ADMIN, AccountId(40)).unwrap_err();
    assert_eq!(e, Fault::PlatformPaused);
    // Plot registration does not consult the pause.
    r.register_plot(&all(), farmer, [1u8; 32], triangle(), 10, 100).unwrap();
}

#[test]
fn farmer_registration_needs_both_signatures() {
    let mut r = setup();
    let farmer = AccountId(10);
    let (p, h) = doc(1);
    let only_validator = Signers::only(vec![VALIDATOR]);
    let e = r.register_farmer(&only_validator, false, VALIDATOR, farmer, h, &p, region("s1"), 100).unwrap_err();
    assert_eq!(e, Fault::Unauthorized(farmer));
    let only_farmer = Signers::only(vec![farmer]);
    let e = r.register_farmer(&only_farmer, false, VALIDATOR, farmer, h, &p, region("s1"), 100).unwrap_err();
    assert_eq!(e, Fault::Unauthorized(VALIDATOR));
    let both = Signers::only(vec![farmer, VALIDATOR]);
    r.register_farmer(&both, false, VALIDATOR, farmer, h, &p, region("s1"), 100).unwrap();
}

#[test]
fn farmer_register_returns_profile_and_archives_version_zero() {
    let mut r = setup();
    let farmer = AccountId(10);
    let (p, h) = doc(9);
    let profile = r.register_farmer(&all(), false, VALIDATOR, farmer, h, &p, region("s4"), 123).unwrap();
    assert_eq!(profile.wallet_address, farmer);
    assert_eq!(profile.land_doc_hash, h);
    assert_eq!(profile.region_geohash, region("s4"));
    assert_eq!(profile.registered_at, 123);
    let entry = r.get_profile_history(&all(), VALIDATOR, farmer, 0).unwrap().unwrap();
    assert_eq!(entry.version, 0);
    assert_eq!(entry.updated_at, 123);
    assert_eq!(entry.profile, profile);
    assert!(r.get_profile_history(&all(), VALIDATOR, farmer, 1).unwrap().is_none());
}

#[test]
fn farmer_update_keeps_registration_time() {
    let mut r = setup();
    let farmer = AccountId(10);
    register(&mut r, farmer, 1, "s1");
    let (p2, h2) = doc(2);
    let updated = r.update_profile(&all(), false, VALIDATOR, farmer, h2, &p2, region("s2"), 999).unwrap();
    assert_eq!(updated.registered_at, 100);
    let archived = r.get_profile_history(&all(), VALIDATOR, farmer, 0).unwrap().unwrap();
    assert_eq!(archived.updated_at, 999);
    assert_eq!(archived.profile.region_geohash, region("s1"));
}

#[test]
fn farmer_duplicate_land_tenure_rejected() {
    let mut r = setup();
    let farmer = AccountId(10);
    r.verify_land_tenure(&all(), false, VALIDATOR, farmer, [10u8; 32], [20u8; 32], vec![1], 100).unwrap();
    let e = r
        .verify_land_tenure(&all(), false, VALIDATOR, farmer, [10u8; 32], [21u8; 32], vec![2], 200)
        .unwrap_err();
    assert_eq!(e, Fault::Farmer(FarmerError::LandTenureAlreadyExists));
    expect_code(e, 9);
    assert_eq!(r.get_land_tenure([10u8; 32]).unwrap().land_title_hash, [20u8; 32]);
}

#[test]
fn farmer_land_tenure_needs_validator_and_unfrozen_farmer() {
    let mut r = setup();
    let farmer = AccountId(10);
    let e = r
        .verify_land_tenure(&all(), false, AccountId(66), farmer, [10u8; 32], [20u8; 32], vec![], 100)
        .unwrap_err();
    assert_eq!(e, Fault::Farmer(FarmerError::NotValidator));
    r.freeze_farmer(&all(), false, ADMIN, farmer).unwrap();
    let e = r
        .verify_land_tenure(&all(), false, VALIDATOR, farmer, [10u8; 32], [20u8; 32], vec![], 100)
        .unwrap_err();
    assert_eq!(e, Fault::Farmer(FarmerError::FarmerFrozen));
    assert!(r.get_land_tenure([10u8; 32]).is_none());
    assert!(r.get_farmer_land_tenures(farmer).is_empty());
}

#[test]
fn farmer_plots_listed_in_registration_order() {
    let mut r = setup();
    let farmer = AccountId(10);
    let other = AccountId(11);
    r.register_plot(&all(), farmer, [7u8; 32], triangle(), 1, 100).unwrap();
    r.register_plot(&all(), other, [8u8; 32], triangle(), 2, 100).unwrap();
    r.register_plot(&all(), farmer, [6u8; 32], triangle(), 3, 100).unwrap();
    let plots = r.get_plots_by_farmer(farmer);
    assert_eq!(plots.len(), 2);
    assert_eq!(plots[0].plot_id, [7u8; 32]);
    assert_eq!(plots[1].plot_id, [6u8; 32]);
    assert_eq!(plots[1].coordinates, triangle());
    assert_eq!(r.get_plots_by_farmer(other).len(), 1);
    assert!(r.get_plots_by_farmer(AccountId(12)).is_empty());
}

#[test]
fn farmer_public_view_absent_for_unknown_wallet() {
    let r = setup();
    assert!(r.get_farmer(AccountId(10)).is_none());
    assert!(!r.is_registered(AccountId(10)));
    assert_eq!(r.get_version(AccountId(10)), 0);
    assert!(r.is_available(AccountId(10)));
    let e = r.get_farmer_verified(&all(), VALIDATOR, AccountId(10)).unwrap_err();
    assert_eq!(e, Fault::Farmer(FarmerError::FarmerNotRegistered));
}

#[test]
fn farmer_oversized_document_is_refused() {
    let mut r = setup();
    let farmer = AccountId(10);
    let big = vec![7u8; 1_048_577];
    let e = r.register_farmer(&all(), false, VALIDATOR, farmer, [0u8; 32], &big, region("s1"), 100).unwrap_err();
    assert_eq!(e, Fault::BudgetExceeded);
    assert_eq!(e.contract_code(), None);
    assert!(!r.is_registered(farmer));
    let fits = vec![7u8; 1_048_576];
    let h = sha256(&fits);
    r.register_farmer(&all(), false, VALIDATOR, farmer, h, &fits, region("s1"), 100).unwrap();
    assert!(r.is_registered(farmer));
}

#[test]
fn farmer_listings_grow_by_the_new_record() {
    let mut r = setup();
    let farmer = AccountId(10);
    r.register_plot(&all(), farmer, [1u8; 32], triangle(), 5, 100).unwrap();
    r.register_plot(&all(), farmer, [2u8; 32], triangle(), 6, 101).unwrap();
    let plots = r.get_plots_by_farmer(farmer);
    assert_eq!(plots.len(), 2);
    assert_eq!(plots[1].plot_id, [2u8; 32]);
    assert_eq!(plots[1].area_sqm, 6);
    assert_eq!(plots[1].registered_at, 101);
    let t = r.verify_land_tenure(&all(), false, VALIDATOR, farmer, [3u8; 32], [4u8; 32], vec![9], 102).unwrap();
    let tenures = r.get_farmer_land_tenures(farmer);
    assert_eq!(tenures, vec![t]);
}

#[test]
fn farmer_long_documents_are_hashed() {
    let mut r = setup();
    let farmer = AccountId(10);
    let long = vec![3u8; 200_000];
    let e = r.register_farmer(&all(), false, VALIDATOR, farmer, [0u8; 32], &long, region("s1"), 100).unwrap_err();
    assert_eq!(e, Fault::Farmer(FarmerError::HashMismatch));
    let h = sha256(&long);
    r.register_farmer(&all(), false, VALIDATOR, farmer, h, &long, region("s1"), 100).unwrap();
    let longer = vec![4u8; 300_000];
    let h2 = sha256(&longer);
    r.update_profile(&all(), false, VALIDATOR, farmer, h2, &longer, region("s2"), 200).unwrap();
    assert_eq!(r.get_version(farmer), 1);
    assert_eq!(r.get_farmer(farmer).unwrap().land_doc_hash, h2);
}
