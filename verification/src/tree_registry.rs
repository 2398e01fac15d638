//! Registry of planted trees, minted for sponsors or anonymously through the
//! escrow contract.

use vstd::prelude::*;
use crate::common::{text_is, AccountId, Fault, Signers};
use crate::table::{append_to_list, lemma_records_listed_append, lemma_records_listed_from, list_of, list_records, records_listed, Duplicate, Table};

verus! {

/// Refusals of the tree registry.
#[derive(Clone, Copy, Debug, PartialEq, Eq, PartialOrd, Ord, Structural)]
pub enum Error {
    TreeNotFound,
    InvalidPlanter,
    Unauthorized,
    TreeAlreadyPlanted,
    InvalidCoordinates,
}

impl Error {
    /// The contract error number under which the host reports this error.
    pub open spec fn spec_code(&self) -> u32 {
        match self {
            Error::TreeNotFound => 1,
            Error::InvalidPlanter => 2,
            Error::Unauthorized => 3,
            Error::TreeAlreadyPlanted => 4,
            Error::InvalidCoordinates => 5,
        }
    }

    /// The contract error number under which the host reports this error.
    #[verifier::when_used_as_spec(spec_code)]
    pub fn code(&self) -> (c: u32)
        ensures
            c == self.spec_code(),
    {
        match self {
            Error::TreeNotFound => 1,
            Error::InvalidPlanter => 2,
            Error::Unauthorized => 3,
            Error::TreeAlreadyPlanted => 4,
            Error::InvalidCoordinates => 5,
        }
    }
}
/// Life-cycle stage of a tree.
#[derive(Clone, Copy, Debug, PartialEq, Eq, Structural)]
pub enum TreeStatus {
    Assigned,
    Planted,
    Verified,
    Mature,
    Failed,
}

/// One registered tree.
#[derive(Debug, PartialEq, Eq)]
pub struct Tree {
    pub id: u64,
    /// `None` for anonymously funded trees.
    pub sponsor: Option<AccountId>,
    pub planter: AccountId,
    pub species: String,
    pub region: String,
    pub planted_at: u64,
    pub status: TreeStatus,
    pub photo_cid: Option<String>,
    pub gps_lat: Option<i64>,
    pub gps_lon: Option<i64>,
    pub co2_offset_kg: u64,
}

impl View for Tree {
    type V = Tree;

    open spec fn view(&self) -> Tree {
        *self
    }
}

impl Duplicate for Tree {
    fn duplicate(&self) -> (t: Tree) {
        Tree {
            id: self.id,
            sponsor: self.sponsor,
            planter: self.planter,
            species: self.species.clone(),
            region: self.region.clone(),
            planted_at: self.planted_at,
            status: self.status,
            photo_cid: match &self.photo_cid {
                Some(c) => Some(c.clone()),
                None => None,
            },
            gps_lat: self.gps_lat,
            gps_lon: self.gps_lon,
            co2_offset_kg: self.co2_offset_kg,
        }
    }
}

/// Yearly CO2 offset, in kilograms, credited to a tree of `species`.
pub open spec fn co2_for(species: Seq<char>) -> u64 {
    if species == "teak"@ {
        22
    } else if species == "moringa"@ {
        9
    } else if species == "eucalyptus"@ {
        31
    } else if species == "mangrove"@ {
        14
    } else if species == "acacia"@ {
        18
    } else if species == "bamboo"@ {
        12
    } else {
        15
    }
}

/// Yearly CO2 offset, in kilograms, credited to a tree of `species`.
pub fn get_co2_for_species(species: &String) -> (r: u64)
    ensures
        r == co2_for(species@),
{
    if text_is(species, "teak") {
        22
    } else if text_is(species, "moringa") {
        9
    } else if text_is(species, "eucalyptus") {
        31
    } else if text_is(species, "mangrove") {
        14
    } else if text_is(species, "acacia") {
        18
    } else if text_is(species, "bamboo") {
        12
    } else {
        15
    }
}

/// A tree as minted.
pub open spec fn minted_tree(id: u64, sponsor: Option<AccountId>, planter: AccountId, species: String, region: String, now: u64) -> Tree {
    Tree {
        id,
        sponsor,
        planter,
        species,
        region,
        planted_at: now,
        status: TreeStatus::Assigned,
        photo_cid: None,
        gps_lat: None,
        gps_lon: None,
        co2_offset_kg: co2_for(species@),
    }
}

/// Latitudes are micro-degrees within +-90 degrees.
pub open spec fn valid_latitude(lat: i64) -> bool {
    -90_000000 <= lat <= 90_000000
}

/// Longitudes are micro-degrees within +-180 degrees.
pub open spec fn valid_longitude(lon: i64) -> bool {
    -180_000000 <= lon <= 180_000000
}

/// Every id on every list in `lists` names a record in `records`.
pub open spec fn lists_name_records(lists: Map<AccountId, Vec<u64>>, records: Map<u64, Tree>) -> bool {
    forall|a: AccountId, j: int| 0 <= j < list_of(lists, a).len()
        ==> records.contains_key(#[trigger] list_of(lists, a)[j])
}

/// Appending a stored id to one owner's list, while no record is dropped,
/// keeps every listed id naming a record; and when the id was fresh, that
/// owner's listing gains exactly the new record.
proof fn lemma_lists_after_append(
    lists0: Map<AccountId, Vec<u64>>,
    lists1: Map<AccountId, Vec<u64>>,
    records0: Map<u64, Tree>,
    records1: Map<u64, Tree>,
    owner: AccountId,
    id: u64,
)
    requires
        lists_name_records(lists0, records0),
        forall|a: AccountId| #[trigger] list_of(lists1, a) == if a == owner {
            list_of(lists0, a).push(id)
        } else {
            list_of(lists0, a)
        },
        records1.contains_key(id),
        forall|k: u64| records0.contains_key(k) ==> #[trigger] records1.contains_key(k),
    ensures
        lists_name_records(lists1, records1),
        !records0.contains_key(id) && records1 == records0.insert(id, records1[id]) ==>
            records_listed(list_of(lists1, owner), records1) == records_listed(list_of(lists0, owner), records0).push(records1[id]),
{
    assert forall|a: AccountId, j: int| 0 <= j < list_of(lists1, a).len()
        implies records1.contains_key(#[trigger] list_of(lists1, a)[j]) by {
        if a == owner && j == list_of(lists0, a).len() {
        } else {
            assert(list_of(lists1, a)[j] == list_of(lists0, a)[j]);
            assert(records0.contains_key(list_of(lists0, a)[j]));
        }
    }
    if !records0.contains_key(id) && records1 == records0.insert(id, records1[id]) {
        let ids = list_of(lists0, owner);
        assert forall|j: int| 0 <= j < ids.len() implies records0.contains_key(#[trigger] ids[j]) by {}
        lemma_records_listed_append(ids, records0, id, records1[id]);
    }
}

/// Storage of the tree registry.
pub struct TreeRegistryContract {
    next_tree_id: u64,
    total_trees: u64,
    total_anonymous: u64,
    escrow: Option<AccountId>,
    trees: Table<u64, Tree>,
    sponsor_trees: Table<AccountId, Vec<u64>>,
    planter_trees: Table<AccountId, Vec<u64>>,
}

impl TreeRegistryContract {
    /// The tables are well formed, and every id on a sponsor's or planter's
    /// list names a stored tree.
    pub closed spec fn wf(&self) -> bool {
        &&& self.trees.wf()
        &&& self.sponsor_trees.wf()
        &&& self.planter_trees.wf()
        &&& lists_name_records(self.sponsor_trees@, self.trees@)
        &&& lists_name_records(self.planter_trees@, self.trees@)
    }

    pub closed spec fn spec_next_tree_id(&self) -> u64 {
        self.next_tree_id
    }

    pub closed spec fn spec_total_trees(&self) -> u64 {
        self.total_trees
    }

    pub closed spec fn spec_total_anonymous(&self) -> u64 {
        self.total_anonymous
    }

    /// The escrow contract allowed to mint anonymous trees.
    pub closed spec fn spec_escrow(&self) -> Option<AccountId> {
        self.escrow
    }

    /// Registered trees by id.
    pub closed spec fn spec_trees(&self) -> Map<u64, Tree> {
        self.trees@
    }

    /// Ids of the trees `sponsor` funded, in minting order.
    pub closed spec fn spec_sponsor_ids(&self, sponsor: AccountId) -> Seq<u64> {
        list_of(self.sponsor_trees@, sponsor)
    }

    /// Ids of the trees assigned to `planter`, in minting order.
    pub closed spec fn spec_planter_ids(&self, planter: AccountId) -> Seq<u64> {
        list_of(self.planter_trees@, planter)
    }

    /// Sponsor dashboards are sound and tree ids are fresh: every tree's id
    /// is below the next id to hand out, and each id on a sponsor's list
    /// names a tree that sponsor funded.
    pub open spec fn dashboards_consistent(&self) -> bool {
        &&& forall|id: u64| #[trigger] self.spec_trees().contains_key(id) ==> id < self.spec_next_tree_id()
        &&& forall|s: AccountId, i: int| 0 <= i < self.spec_sponsor_ids(s).len() ==> {
            &&& self.spec_trees().contains_key(#[trigger] self.spec_sponsor_ids(s)[i])
            &&& self.spec_trees()[self.spec_sponsor_ids(s)[i]].sponsor == Some(s)
        }
    }

    /// Every recorded GPS position of a tree lies within +-90 degrees of
    /// latitude and +-180 degrees of longitude (in micro-degrees).
    pub open spec fn positions_in_range(&self) -> bool {
        forall|id: u64| #[trigger] self.spec_trees().contains_key(id) ==> {
            &&& (self.spec_trees()[id].gps_lat matches Some(lat) ==> -90_000000 <= lat <= 90_000000)
            &&& (self.spec_trees()[id].gps_lon matches Some(lon) ==> -180_000000 <= lon <= 180_000000)
        }
    }

    /// A freshly deployed registry with empty storage.
    pub fn new() -> (c: Self)
        ensures
            c.wf(),
            c.dashboards_consistent(),
            c.positions_in_range(),
            c.spec_next_tree_id() == 1,
            c.spec_total_trees() == 0,
            c.spec_total_anonymous() == 0,
            c.spec_escrow() is None,
            c.spec_trees() == Map::<u64, Tree>::empty(),
            forall|a: AccountId| c.spec_sponsor_ids(a) == Seq::<u64>::empty() && c.spec_planter_ids(a) == Seq::<u64>::empty(),
    {
        TreeRegistryContract {
            next_tree_id: 1,
            total_trees: 0,
            total_anonymous: 0,
            escrow: None,
            trees: Table::new(),
            sponsor_trees: Table::new(),
            planter_trees: Table::new(),
        }
    }

    /// Resets the id and count registers; trees and lists are kept.
    pub fn initialize(&mut self)
        ensures
            final(self).spec_next_tree_id() == 1,
            final(self).spec_total_trees() == 0,
            final(self).spec_total_anonymous() == 0,
            final(self).spec_escrow() == old(self).spec_escrow(),
            final(self).spec_trees() == old(self).spec_trees(),
            forall|a: AccountId| final(self).spec_sponsor_ids(a) == old(self).spec_sponsor_ids(a)
                && final(self).spec_planter_ids(a) == old(self).spec_planter_ids(a),
            old(self).wf() ==> final(self).wf(),
            old(self).positions_in_range() ==> final(self).positions_in_range(),
    {
        self.next_tree_id = 1;
        self.total_trees = 0;
        self.total_anonymous = 0;
    }

    /// Sets the escrow contract allowed to mint anonymous trees.
    pub fn set_escrow_address(&mut self, escrow: AccountId)
        ensures
            final(self).spec_escrow() == Some(escrow),
            final(self).spec_next_tree_id() == old(self).spec_next_tree_id(),
            final(self).spec_total_trees() == old(self).spec_total_trees(),
            final(self).spec_total_anonymous() == old(self).spec_total_anonymous(),
            final(self).spec_trees() == old(self).spec_trees(),
            forall|a: AccountId| final(self).spec_sponsor_ids(a) == old(self).spec_sponsor_ids(a)
                && final(self).spec_planter_ids(a) == old(self).spec_planter_ids(a),
            old(self).wf() ==> final(self).wf(),
            old(self).dashboards_consistent() ==> final(self).dashboards_consistent(),
            old(self).positions_in_range() ==> final(self).positions_in_range(),
    {
        let ghost prev = *self;
        self.escrow = Some(escrow);
        proof {
            if prev.dashboards_consistent() {
                assert forall|a: AccountId, i: int| 0 <= i < self.spec_sponsor_ids(a).len() implies {
                    &&& self.spec_trees().contains_key(#[trigger] self.spec_sponsor_ids(a)[i])
                    &&& self.spec_trees()[self.spec_sponsor_ids(a)[i]].sponsor == Some(a)
                } by {
                    assert(self.spec_sponsor_ids(a) == prev.spec_sponsor_ids(a));
                }
            }
        }
    }

    /// Registers a tree funded anonymously through the escrow contract,
    /// which must authorise the call. Returns the new tree's id.
    pub fn mint_anon(&mut self, signers: &Signers, species: String, region: String, planter: AccountId, now: u64) -> (r: Result<u64, Fault>)
        requires
            old(self).wf(),
            old(self).spec_escrow() is Some,
            old(self).spec_next_tree_id() < u64::MAX,
            old(self).spec_total_trees() < u64::MAX,
            old(self).spec_total_anonymous() < u64::MAX,
        ensures
            final(self).wf(),
            ({
                let escrow = old(self).spec_escrow().unwrap();
                let id = old(self).spec_next_tree_id();
                if !signers.authorizes(escrow) {
                    r == Err::<u64, Fault>(Fault::Unauthorized(escrow)) && *final(self) == *old(self)
                } else {
                    &&& r == Ok::<u64, Fault>(id)
                    &&& final(self).spec_trees() == old(self).spec_trees().insert(id, minted_tree(id, None, planter, species, region, now))
                    &&& forall|a: AccountId| #[trigger] final(self).spec_planter_ids(a) == if a == planter {
                        old(self).spec_planter_ids(a).push(id)
                    } else {
                        old(self).spec_planter_ids(a)
                    }
                    &&& forall|a: AccountId| #[trigger] final(self).spec_sponsor_ids(a) == old(self).spec_sponsor_ids(a)
                    &&& !old(self).spec_trees().contains_key(id) ==> records_listed(final(self).spec_planter_ids(planter), final(self).spec_trees())
                        == records_listed(old(self).spec_planter_ids(planter), old(self).spec_trees()).push(
                            minted_tree(id, None, planter, species, region, now))
                    &&& final(self).spec_total_trees() == old(self).spec_total_trees() + 1
                    &&& final(self).spec_total_anonymous() == old(self).spec_total_anonymous() + 1
                    &&& final(self).spec_next_tree_id() == id + 1
                    &&& final(self).spec_escrow() == old(self).spec_escrow()
                }
            }),
            old(self).dashboards_consistent() ==> final(self).dashboards_consistent(),
            old(self).positions_in_range() ==> final(self).positions_in_range(),
    {
        let escrow = self.escrow.unwrap();
        signers.require_auth(escrow)?;
        let ghost prev = *self;
        let tree_id = self.next_tree_id;
        let co2 = get_co2_for_species(&species);
        let tree = Tree {
            id: tree_id,
            sponsor: None,
            planter,
            species,
            region,
            planted_at: now,
            status: TreeStatus::Assigned,
            photo_cid: None,
            gps_lat: None,
            gps_lon: None,
            co2_offset_kg: co2,
        };
        self.trees.insert(tree_id, tree);
        append_to_list(&mut self.planter_trees, planter, tree_id);
        self.total_trees = self.total_trees + 1;
        self.total_anonymous = self.total_anonymous + 1;
        self.next_tree_id = tree_id + 1;
        proof {
            lemma_lists_after_append(prev.planter_trees@, self.planter_trees@, prev.trees@, self.trees@, planter, tree_id);
            assert(self.sponsor_trees@ == prev.sponsor_trees@);
            assert forall|a: AccountId| #[trigger] self.spec_sponsor_ids(a) == prev.spec_sponsor_ids(a) by {}
            if prev.dashboards_consistent() {
                assert forall|a: AccountId, i: int| 0 <= i < self.spec_sponsor_ids(a).len() implies {
                    &&& self.spec_trees().contains_key(#[trigger] self.spec_sponsor_ids(a)[i])
                    &&& self.spec_trees()[self.spec_sponsor_ids(a)[i]].sponsor == Some(a)
                } by {
                    let listed = prev.spec_sponsor_ids(a)[i];
                    assert(prev.spec_trees().contains_key(listed));
                    assert(listed != tree_id);
                }
            }
        }
        Ok(tree_id)
    }

    /// Registers a tree funded by `sponsor`, who must authorise the call.
    /// Returns the new tree's id.
    pub fn mint_sponsored(&mut self, signers: &Signers, sponsor: AccountId, planter: AccountId, species: String, region: String, now: u64) -> (r: Result<u64, Fault>)
        requires
            old(self).wf(),
            old(self).spec_next_tree_id() < u64::MAX,
            old(self).spec_total_trees() < u64::MAX,
        ensures
            final(self).wf(),
            ({
                let id = old(self).spec_next_tree_id();
                if !signers.authorizes(sponsor) {
                    r == Err::<u64, Fault>(Fault::Unauthorized(sponsor)) && *final(self) == *old(self)
                } else {
                    &&& r == Ok::<u64, Fault>(id)
                    &&& final(self).spec_trees() == old(self).spec_trees().insert(id, minted_tree(id, Some(sponsor), planter, species, region, now))
                    &&& forall|a: AccountId| #[trigger] final(self).spec_planter_ids(a) == if a == planter {
                        old(self).spec_planter_ids(a).push(id)
                    } else {
                        old(self).spec_planter_ids(a)
                    }
                    &&& forall|a: AccountId| #[trigger] final(self).spec_sponsor_ids(a) == if a == sponsor {
                        old(self).spec_sponsor_ids(a).push(id)
                    } else {
                        old(self).spec_sponsor_ids(a)
                    }
                    &&& !old(self).spec_trees().contains_key(id) ==> records_listed(final(self).spec_planter_ids(planter), final(self).spec_trees())
                        == records_listed(old(self).spec_planter_ids(planter), old(self).spec_trees()).push(
                            minted_tree(id, Some(sponsor), planter, species, region, now))
                    &&& !old(self).spec_trees().contains_key(id) ==> records_listed(final(self).spec_sponsor_ids(sponsor), final(self).spec_trees())
                        == records_listed(old(self).spec_sponsor_ids(sponsor), old(self).spec_trees()).push(
                            minted_tree(id, Some(sponsor), planter, species, region, now))
                    &&& final(self).spec_total_trees() == old(self).spec_total_trees() + 1
                    &&& final(self).spec_total_anonymous() == old(self).spec_total_anonymous()
                    &&& final(self).spec_next_tree_id() == id + 1
                    &&& final(self).spec_escrow() == old(self).spec_escrow()
                }
            }),
            old(self).dashboards_consistent() ==> final(self).dashboards_consistent(),
            old(self).positions_in_range() ==> final(self).positions_in_range(),
    {
        signers.require_auth(sponsor)?;
        let ghost prev = *self;
        let tree_id = self.next_tree_id;
        let co2 = get_co2_for_species(&species);
        let tree = Tree {
            id: tree_id,
            sponsor: Some(sponsor),
            planter,
            species,
            region,
            planted_at: now,
            status: TreeStatus::Assigned,
            photo_cid: None,
            gps_lat: None,
            gps_lon: None,
            co2_offset_kg: co2,
        };
        self.trees.insert(tree_id, tree);
        append_to_list(&mut self.sponsor_trees, sponsor, tree_id);
        append_to_list(&mut self.planter_trees, planter, tree_id);
        self.total_trees = self.total_trees + 1;
        self.next_tree_id = tree_id + 1;
        proof {
            lemma_lists_after_append(prev.planter_trees@, self.planter_trees@, prev.trees@, self.trees@, planter, tree_id);
            lemma_lists_after_append(prev.sponsor_trees@, self.sponsor_trees@, prev.trees@, self.trees@, sponsor, tree_id);
            if prev.dashboards_consistent() {
                assert forall|a: AccountId, i: int| 0 <= i < self.spec_sponsor_ids(a).len() implies {
                    &&& self.spec_trees().contains_key(#[trigger] self.spec_sponsor_ids(a)[i])
                    &&& self.spec_trees()[self.spec_sponsor_ids(a)[i]].sponsor == Some(a)
                } by {
                    if i < prev.spec_sponsor_ids(a).len() {
                        let listed = prev.spec_sponsor_ids(a)[i];
                        assert(self.spec_sponsor_ids(a)[i] == listed);
                        assert(prev.spec_trees().contains_key(listed));
                        assert(listed != tree_id);
                    } else {
                        assert(a == sponsor);
                        assert(self.spec_sponsor_ids(a)[i] == tree_id);
                    }
                }
            }
        }
        Ok(tree_id)
    }

    /// The planter of `tree_id` moves it to `new_status`.
    pub fn update_status(&mut self, signers: &Signers, tree_id: u64, new_status: TreeStatus) -> (r: Result<(), Fault>)
        requires
            old(self).wf(),
        ensures
            final(self).wf(),
            !old(self).spec_trees().contains_key(tree_id) ==> r == Err::<(), Fault>(Fault::Tree(Error::TreeNotFound)),
            old(self).spec_trees().contains_key(tree_id) ==> {
                let t = old(self).spec_trees()[tree_id];
                if !signers.authorizes(t.planter) {
                    r == Err::<(), Fault>(Fault::Unauthorized(t.planter))
                } else {
                    &&& r is Ok
                    &&& final(self).spec_trees() == old(self).spec_trees().insert(tree_id, Tree { status: new_status, ..t })
                }
            },
            r is Err ==> *final(self) == *old(self),
            final(self).spec_next_tree_id() == old(self).spec_next_tree_id(),
            final(self).spec_total_trees() == old(self).spec_total_trees(),
            final(self).spec_total_anonymous() == old(self).spec_total_anonymous(),
            final(self).spec_escrow() == old(self).spec_escrow(),
            forall|a: AccountId| final(self).spec_sponsor_ids(a) == old(self).spec_sponsor_ids(a)
                && final(self).spec_planter_ids(a) == old(self).spec_planter_ids(a),
            old(self).dashboards_consistent() ==> final(self).dashboards_consistent(),
            old(self).positions_in_range() ==> final(self).positions_in_range(),
    {
        let planter = match self.trees.get(&tree_id) {
            Some(t) => t.planter,
            None => return Err(Fault::Tree(Error::TreeNotFound)),
        };
        signers.require_auth(planter)?;
        let ghost prev = *self;
        let mut tree = self.trees.remove(&tree_id).unwrap();
        tree.status = new_status;
        self.trees.insert(tree_id, tree);
        proof {
            assert(self.spec_trees() =~= prev.spec_trees().insert(tree_id, Tree { status: new_status, ..prev.spec_trees()[tree_id] }));
            if prev.dashboards_consistent() {
                assert forall|a: AccountId, i: int| 0 <= i < self.spec_sponsor_ids(a).len() implies {
                    &&& self.spec_trees().contains_key(#[trigger] self.spec_sponsor_ids(a)[i])
                    &&& self.spec_trees()[self.spec_sponsor_ids(a)[i]].sponsor == Some(a)
                } by {
                    assert(self.spec_sponsor_ids(a) == prev.spec_sponsor_ids(a));
                }
            }
        }
        Ok(())
    }

    /// The planter of `tree_id` records the planting proof: a photo and the
    /// GPS position in micro-degrees. The tree becomes `Planted`.
    pub fn upload_proof(&mut self, signers: &Signers, tree_id: u64, photo_cid: String, gps_lat: i64, gps_lon: i64) -> (r: Result<(), Fault>)
        requires
            old(self).wf(),
        ensures
            final(self).wf(),
            !old(self).spec_trees().contains_key(tree_id) ==> r == Err::<(), Fault>(Fault::Tree(Error::TreeNotFound)),
            old(self).spec_trees().contains_key(tree_id) ==> {
                let t = old(self).spec_trees()[tree_id];
                if !signers.authorizes(t.planter) {
                    r == Err::<(), Fault>(Fault::Unauthorized(t.planter))
                } else if !valid_latitude(gps_lat) || !valid_longitude(gps_lon) {
                    r == Err::<(), Fault>(Fault::Tree(Error::InvalidCoordinates))
                } else {
                    &&& r is Ok
                    &&& final(self).spec_trees() == old(self).spec_trees().insert(tree_id, Tree {
                        photo_cid: Some(photo_cid),
                        gps_lat: Some(gps_lat),
                        gps_lon: Some(gps_lon),
                        status: TreeStatus::Planted,
                        ..t
                    })
                }
            },
            r is Ok ==> -90_000000 <= gps_lat <= 90_000000 && -180_000000 <= gps_lon <= 180_000000,
            old(self).spec_trees().contains_key(tree_id) && signers.authorizes(old(self).spec_trees()[tree_id].planter)
                && !(-90_000000 <= gps_lat <= 90_000000 && -180_000000 <= gps_lon <= 180_000000)
                ==> r == Err::<(), Fault>(Fault::Tree(Error::InvalidCoordinates)),
            r is Err ==> *final(self) == *old(self),
            final(self).spec_next_tree_id() == old(self).spec_next_tree_id(),
            final(self).spec_total_trees() == old(self).spec_total_trees(),
            final(self).spec_total_anonymous() == old(self).spec_total_anonymous(),
            final(self).spec_escrow() == old(self).spec_escrow(),
            forall|a: AccountId| final(self).spec_sponsor_ids(a) == old(self).spec_sponsor_ids(a)
                && final(self).spec_planter_ids(a) == old(self).spec_planter_ids(a),
            old(self).dashboards_consistent() ==> final(self).dashboards_consistent(),
            old(self).positions_in_range() ==> final(self).positions_in_range(),
    {
        let planter = match self.trees.get(&tree_id) {
            Some(t) => t.planter,
            None => return Err(Fault::Tree(Error::TreeNotFound)),
        };
        signers.require_auth(planter)?;
        if gps_lat < -90_000000 || gps_lat > 90_000000 {
            return Err(Fault::Tree(Error::InvalidCoordinates));
        }
        if gps_lon < -180_000000 || gps_lon > 180_000000 {
            return Err(Fault::Tree(Error::InvalidCoordinates));
        }
        let ghost prev = *self;
        let ghost cid = photo_cid;
        let mut tree = self.trees.remove(&tree_id).unwrap();
        tree.photo_cid = Some(photo_cid);
        tree.gps_lat = Some(gps_lat);
        tree.gps_lon = Some(gps_lon);
        tree.status = TreeStatus::Planted;
        self.trees.insert(tree_id, tree);
        proof {
            assert(self.spec_trees() =~= prev.spec_trees().insert(tree_id, Tree {
                photo_cid: Some(cid),
                gps_lat: Some(gps_lat),
                gps_lon: Some(gps_lon),
                status: TreeStatus::Planted,
                ..prev.spec_trees()[tree_id]
            }));
            if prev.dashboards_consistent() {
                assert forall|a: AccountId, i: int| 0 <= i < self.spec_sponsor_ids(a).len() implies {
                    &&& self.spec_trees().contains_key(#[trigger] self.spec_sponsor_ids(a)[i])
                    &&& self.spec_trees()[self.spec_sponsor_ids(a)[i]].sponsor == Some(a)
                } by {
                    assert(self.spec_sponsor_ids(a) == prev.spec_sponsor_ids(a));
                }
            }
        }
        Ok(())
    }

    pub fn get_total_trees(&self) -> (r: u64)
        ensures
            r == self.spec_total_trees(),
    {
        self.total_trees
    }

    pub fn get_total_anonymous_trees(&self) -> (r: u64)
        ensures
            r == self.spec_total_anonymous(),
    {
        self.total_anonymous
    }

    pub fn get_next_tree_id(&self) -> (r: u64)
        ensures
            r == self.spec_next_tree_id(),
    {
        self.next_tree_id
    }

    /// The escrow contract allowed to mint anonymous trees, if set.
    pub fn get_escrow_address(&self) -> (r: Option<AccountId>)
        ensures
            r == self.spec_escrow(),
    {
        self.escrow
    }

    /// The tree with id `tree_id`, if any.
    pub fn get_tree(&self, tree_id: u64) -> (r: Option<Tree>)
        requires
            self.wf(),
        ensures
            r == (if self.spec_trees().contains_key(tree_id) { Some(self.spec_trees()[tree_id]) } else { None }),
    {
        match self.trees.get(&tree_id) {
            Some(t) => Some(t.duplicate()),
            None => None,
        }
    }

    /// The trees `sponsor` funded, in minting order.
    pub fn get_sponsor_trees(&self, sponsor: AccountId) -> (r: Vec<Tree>)
        requires
            self.wf(),
        ensures
            r@ == records_listed(self.spec_sponsor_ids(sponsor), self.spec_trees()),
    {
        let empty: Vec<u64> = Vec::new();
        let ids = match self.sponsor_trees.get(&sponsor) {
            Some(ids) => ids,
            None => &empty,
        };
        assert(ids@ == self.spec_sponsor_ids(sponsor));
        let r = list_records(ids, &self.trees);
        assert forall|i: int| 0 <= i < r@.len() implies r@[i] == records_listed(ids@, self.spec_trees())[i] by {
            assert(r@[i]@ == records_listed(ids@, self.spec_trees())[i]@);
        }
        assert(r@ =~= records_listed(ids@, self.spec_trees()));
        r
    }

    /// The trees assigned to `planter`, in minting order.
    pub fn get_planter_trees(&self, planter: AccountId) -> (r: Vec<Tree>)
        requires
            self.wf(),
        ensures
            r@ == records_listed(self.spec_planter_ids(planter), self.spec_trees()),
    {
        let empty: Vec<u64> = Vec::new();
        let ids = match self.planter_trees.get(&planter) {
            Some(ids) => ids,
            None => &empty,
        };
        assert(ids@ == self.spec_planter_ids(planter));
        let r = list_records(ids, &self.trees);
        assert forall|i: int| 0 <= i < r@.len() implies r@[i] == records_listed(ids@, self.spec_trees())[i] by {
            assert(r@[i]@ == records_listed(ids@, self.spec_trees())[i]@);
        }
        assert(r@ =~= records_listed(ids@, self.spec_trees()));
        r
    }
}


/// A sponsor's dashboard shows only trees that sponsor funded; trees minted
/// anonymously never appear on any dashboard.
pub proof fn law_dashboard_shows_only_own_trees(reg: &TreeRegistryContract, sponsor: AccountId, i: int)
    requires
        reg.dashboards_consistent(),
        0 <= i < records_listed(reg.spec_sponsor_ids(sponsor), reg.spec_trees()).len(),
    ensures
        records_listed(reg.spec_sponsor_ids(sponsor), reg.spec_trees())[i].sponsor == Some(sponsor),
{
    let ids = reg.spec_sponsor_ids(sponsor);
    lemma_records_listed_from(ids, reg.spec_trees(), i);
    let j = choose|j: int| 0 <= j < ids.len() && reg.spec_trees().contains_key(ids[j])
        && records_listed(ids, reg.spec_trees())[i] == reg.spec_trees()[ids[j]];
    assert(reg.spec_trees()[reg.spec_sponsor_ids(sponsor)[j]].sponsor == Some(sponsor));
}


/// A planting proof is accepted only with a latitude within +-90 degrees and
/// a longitude within +-180 degrees, in micro-degrees.
pub proof fn law_coordinate_bounds(lat: i64, lon: i64)
    ensures
        valid_latitude(lat) <==> -90_000000 <= lat <= 90_000000,
        valid_longitude(lon) <==> -180_000000 <= lon <= 180_000000,
        valid_latitude(-90_000000i64) && valid_latitude(90_000000i64),
        !valid_latitude(-90_000001i64) && !valid_latitude(90_000001i64),
{
}

} // verus!
