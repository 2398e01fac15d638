use harvesta::common::{AccountId, Fault, Signers};
use harvesta::tree_registry::{get_co2_for_species, Error, TreeRegistryContract, TreeStatus};

fn setup() -> (AccountId, AccountId, TreeRegistryContract) {
    let sponsor = AccountId(1);
    let planter = AccountId(2);
    let mut registry = TreeRegistryContract::new();
    registry.initialize();
    (sponsor, planter, registry)
}

fn s(text: &str) -> String {
    text.to_string()
}

#[test]
fn test_mint_anonymous_tree() {
    let (_, planter, mut registry) = setup();
    let escrow = AccountId(9);
    registry.set_escrow_address(escrow);
    let auths = Signers::only(vec![escrow]);
    let tree_id = registry.mint_anon(&auths, s("teak"), s("kenya"), planter, 0).unwrap();
    assert_eq!(tree_id, 1u64);
    let tree = registry.get_tree(tree_id).unwrap();
    assert_eq!(tree.sponsor, None);
    assert_eq!(tree.co2_offset_kg, 22);
}

#[test]
fn test_anonymous_tree_not_in_dashboard() {
    let (sponsor, planter, mut registry) = setup();
    let escrow = AccountId(9);
    registry.set_escrow_address(escrow);
    registry.mint_anon(&Signers::only(vec![escrow]), s("teak"), s("kenya"), planter, 0).unwrap();
    registry.mint_sponsored(&Signers::only(vec![sponsor]), sponsor, planter, s("moringa"), s("india"), 0).unwrap();
    let sponsor_trees = registry.get_sponsor_trees(sponsor);
    assert_eq!(sponsor_trees.len(), 1);
    assert_eq!(sponsor_trees[0].id, 2u64);
}

#[test]
fn test_total_anonymous_counter() {
    let (sponsor, planter, mut registry) = setup();
    let escrow = AccountId(9);
    registry.set_escrow_address(escrow);
    let auths = Signers::only(vec![escrow, sponsor]);
    assert_eq!(registry.get_total_anonymous_trees(), 0);
    registry.mint_anon(&auths, s("teak"), s("kenya"), planter, 0).unwrap();
    registry.mint_anon(&auths, s("moringa"), s("india"), planter, 0).unwrap();
    registry.mint_sponsored(&auths, sponsor, planter, s("eucalyptus"), s("brazil"), 0).unwrap();
    assert_eq!(registry.get_total_anonymous_trees(), 2);
    assert_eq!(registry.get_total_trees(), 3);
}

#[test]
fn test_co2_per_species() {
    let (_, planter, mut registry) = setup();
    let escrow = AccountId(9);
    registry.set_escrow_address(escrow);
    let auths = Signers::only(vec![escrow]);
    let tests = vec![
        ("teak", 22u64),
        ("moringa", 9u64),
        ("eucalyptus", 31u64),
        ("mangrove", 14u64),
        ("acacia", 18u64),
        ("bamboo", 12u64),
    ];
    for (species, expected) in tests.iter() {
        let id = registry.mint_anon(&auths, s(species), s("test"), planter, 0).unwrap();
        assert_eq!(registry.get_tree(id).unwrap().co2_offset_kg, *expected);
    }
}

#[test]
fn test_upload_proof() {
    let (_, planter, mut registry) = setup();
    let escrow = AccountId(9);
    registry.set_escrow_address(escrow);
    let tree_id = registry.mint_anon(&Signers::only(vec![escrow]), s("teak"), s("kenya"), planter, 0).unwrap();
    registry
        .upload_proof(&Signers::only(vec![planter]), tree_id, s("QmTest123"), -1_234567i64, 36_876543i64)
        .unwrap();
    let tree = registry.get_tree(tree_id).unwrap();
    assert_eq!(tree.status, TreeStatus::Planted);
    assert_eq!(tree.gps_lat, Some(-1_234567i64));
}

#[test]
fn test_invalid_coordinates() {
    let (_, planter, mut registry) = setup();
    let escrow = AccountId(9);
    registry.set_escrow_address(escrow);
    let tree_id = registry.mint_anon(&Signers::only(vec![escrow]), s("teak"), s("kenya"), planter, 0).unwrap();
    let e = registry
        .upload_proof(&Signers::only(vec![planter]), tree_id, s("QmTest123"), 100_000000i64, 0i64)
        .unwrap_err();
    assert_eq!(e, Fault::Tree(Error::InvalidCoordinates));
    assert_eq!(e.contract_code(), Some(5));
    let tree = registry.get_tree(tree_id).unwrap();
    assert_eq!(tree.status, TreeStatus::Assigned);
    assert_eq!(tree.gps_lat, None);
}

// ── further cases ────────────────────────────────────────────────────────

#[test]
fn tree_unknown_species_gets_default_offset() {
    assert_eq!(get_co2_for_species(&s("oak")), 15);
    assert_eq!(get_co2_for_species(&s("")), 15);
    assert_eq!(get_co2_for_species(&s("Teak")), 15);
    assert_eq!(get_co2_for_species(&s("bamboo")), 12);
}

#[test]
fn tree_mint_anon_needs_escrow_signature() {
    let (_, planter, mut registry) = setup();
    let escrow = AccountId(9);
    registry.set_escrow_address(escrow);
    let e = registry.mint_anon(&Signers::only(vec![planter]), s("teak"), s("kenya"), planter, 0).unwrap_err();
    assert_eq!(e, Fault::Unauthorized(escrow));
    assert_eq!(registry.get_total_trees(), 0);
    assert_eq!(registry.get_next_tree_id(), 1);
    assert!(registry.get_tree(1).is_none());
}

#[test]
fn tree_mint_sponsored_needs_sponsor_signature() {
    let (sponsor, planter, mut registry) = setup();
    let e = registry
        .mint_sponsored(&Signers::only(vec![planter]), sponsor, planter, s("teak"), s("kenya"), 0)
        .unwrap_err();
    assert_eq!(e, Fault::Unauthorized(sponsor));
    assert!(registry.get_sponsor_trees(sponsor).is_empty());
}

#[test]
fn tree_minted_fields_and_planter_dashboard() {
    let (sponsor, planter, mut registry) = setup();
    let auths = Signers::everyone();
    let id = registry.mint_sponsored(&auths, sponsor, planter, s("acacia"), s("ghana"), 77).unwrap();
    let tree = registry.get_tree(id).unwrap();
    assert_eq!(tree.id, id);
    assert_eq!(tree.sponsor, Some(sponsor));
    assert_eq!(tree.planter, planter);
    assert_eq!(tree.species, s("acacia"));
    assert_eq!(tree.region, s("ghana"));
    assert_eq!(tree.planted_at, 77);
    assert_eq!(tree.status, TreeStatus::Assigned);
    assert_eq!(tree.photo_cid, None);
    assert_eq!(tree.co2_offset_kg, 18);
    registry.set_escrow_address(AccountId(9));
    let id2 = registry.mint_anon(&auths, s("teak"), s("kenya"), planter, 78).unwrap();
    let planted = registry.get_planter_trees(planter);
    assert_eq!(planted.len(), 2);
    assert_eq!(planted[0].id, id);
    assert_eq!(planted[1].id, id2);
    assert!(registry.get_planter_trees(sponsor).is_empty());
}

#[test]
fn tree_update_status_by_planter_only() {
    let (sponsor, planter, mut registry) = setup();
    let id = registry.mint_sponsored(&Signers::everyone(), sponsor, planter, s("teak"), s("kenya"), 0).unwrap();
    let e = registry.update_status(&Signers::only(vec![sponsor]), id, TreeStatus::Mature).unwrap_err();
    assert_eq!(e, Fault::Unauthorized(planter));
    registry.update_status(&Signers::only(vec![planter]), id, TreeStatus::Verified).unwrap();
    assert_eq!(registry.get_tree(id).unwrap().status, TreeStatus::Verified);
    let e = registry.update_status(&Signers::everyone(), 99, TreeStatus::Failed).unwrap_err();
    assert_eq!(e, Fault::Tree(Error::TreeNotFound));
    assert_eq!(e.contract_code(), Some(1));
}

#[test]
fn tree_upload_proof_bounds() {
    let (sponsor, planter, mut registry) = setup();
    let all = Signers::everyone();
    let id = registry.mint_sponsored(&all, sponsor, planter, s("teak"), s("kenya"), 0).unwrap();
    registry.upload_proof(&all, id, s("cid"), 90_000000, -180_000000).unwrap();
    let e = registry.upload_proof(&all, id, s("cid"), 0, 180_000001).unwrap_err();
    assert_eq!(e, Fault::Tree(Error::InvalidCoordinates));
    let e = registry.upload_proof(&all, 42, s("cid"), 0, 0).unwrap_err();
    assert_eq!(e, Fault::Tree(Error::TreeNotFound));
    let tree = registry.get_tree(id).unwrap();
    assert_eq!(tree.photo_cid, Some(s("cid")));
    assert_eq!(tree.gps_lon, Some(-180_000000));
}

#[test]
fn tree_initialize_resets_counters_only() {
    let (sponsor, planter, mut registry) = setup();
    let id = registry.mint_sponsored(&Signers::everyone(), sponsor, planter, s("teak"), s("kenya"), 0).unwrap();
    assert_eq!(registry.get_next_tree_id(), 2);
    registry.initialize();
    assert_eq!(registry.get_next_tree_id(), 1);
    assert_eq!(registry.get_total_trees(), 0);
    assert!(registry.get_tree(id).is_some());
    assert_eq!(registry.get_sponsor_trees(sponsor).len(), 1);
}
