//! Per-contract whitelist of external contract addresses that may be
//! invoked, managed by each contract's admin.

use vstd::prelude::*;
use crate::common::{AccountId, Fault};
use crate::table::Table;

verus! {

/// The whitelist entries of one contract instance.
pub struct Whitelist {
    entries: Table<AccountId, bool>,
}

impl Whitelist {
    pub closed spec fn wf(&self) -> bool {
        self.entries.wf()
    }

    /// The whitelisted addresses.
    pub closed spec fn spec_members(&self) -> Set<AccountId> {
        Set::new(|a: AccountId| self.entries@.contains_key(a) && self.entries@[a])
    }

    /// An empty whitelist.
    pub fn new() -> (w: Self)
        ensures
            w.wf(),
            w.spec_members() == Set::<AccountId>::empty(),
    {
        let w = Whitelist { entries: Table::new() };
        assert(w.spec_members() =~= Set::<AccountId>::empty());
        w
    }
}

/// Adds `addr` to the whitelist.
pub fn add_to_whitelist(list: &mut Whitelist, addr: AccountId)
    requires
        old(list).wf(),
    ensures
        final(list).wf(),
        final(list).spec_members() == old(list).spec_members().insert(addr),
{
    list.entries.insert(addr, true);
    assert(list.spec_members() =~= old(list).spec_members().insert(addr));
}

/// Removes `addr` from the whitelist.
pub fn remove_from_whitelist(list: &mut Whitelist, addr: AccountId)
    requires
        old(list).wf(),
    ensures
        final(list).wf(),
        final(list).spec_members() == old(list).spec_members().remove(addr),
{
    list.entries.remove(&addr);
    assert(list.spec_members() =~= old(list).spec_members().remove(addr));
}

/// Whether `addr` is whitelisted.
pub fn is_whitelisted(list: &Whitelist, addr: AccountId) -> (r: bool)
    requires
        list.wf(),
    ensures
        r == list.spec_members().contains(addr),
{
    match list.entries.get(&addr) {
        Some(v) => *v,
        None => false,
    }
}

/// Refuses an address that is not whitelisted.
pub fn assert_whitelisted(list: &Whitelist, addr: AccountId) -> (r: Result<(), Fault>)
    requires
        list.wf(),
    ensures
        list.spec_members().contains(addr) ==> r is Ok,
        !list.spec_members().contains(addr) ==> r == Err::<(), Fault>(Fault::NotWhitelisted),
{
    if !is_whitelisted(list, addr) {
        return Err(Fault::NotWhitelisted);
    }
    Ok(())
}

/// The whitelist after the calls `ops` in order, starting from `members`:
/// `(a, true)` adds `a`, `(a, false)` removes it.
pub open spec fn members_after(members: Set<AccountId>, ops: Seq<(AccountId, bool)>) -> Set<AccountId>
    decreases ops.len(),
{
    if ops.len() == 0 {
        members
    } else {
        let before = members_after(members, ops.drop_last());
        if ops.last().1 {
            before.insert(ops.last().0)
        } else {
            before.remove(ops.last().0)
        }
    }
}

/// Whether the last call on `a` among `ops` added it (`None` if no call
/// names `a`).
pub open spec fn last_call_on(ops: Seq<(AccountId, bool)>, a: AccountId) -> Option<bool>
    decreases ops.len(),
{
    if ops.len() == 0 {
        None
    } else if ops.last().0 == a {
        Some(ops.last().1)
    } else {
        last_call_on(ops.drop_last(), a)
    }
}

/// After any sequence of `add_to_whitelist` / `remove_from_whitelist`
/// calls, an address is whitelisted exactly when the last call on it was an
/// add; an address no call names keeps its standing, so on a fresh list it
/// is not whitelisted. Calls on other addresses never affect it.
pub proof fn law_whitelist_follows_last_call(members: Set<AccountId>, ops: Seq<(AccountId, bool)>, a: AccountId)
    ensures
        members_after(members, ops).contains(a) == match last_call_on(ops, a) {
            Some(added) => added,
            None => members.contains(a),
        },
    decreases ops.len(),
{
    if ops.len() > 0 {
        law_whitelist_follows_last_call(members, ops.drop_last(), a);
    }
}

} // verus!
