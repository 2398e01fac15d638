//! Per-token liquidity pools that mint shares to liquidity providers.
//!
//! A provider depositing into a pool is minted shares proportional to the
//! pool's share price; withdrawing burns shares for the proportional part of
//! the pool's deposits. A pool's first deposit permanently locks
//! `MINIMUM_LIQUIDITY` shares that are never credited to any provider, so a
//! pool's share supply never drains back to zero.

use vstd::prelude::*;
use crate::common::{AccountId, Fault, Signers};
use crate::table::{Table, TableKey, has_key, key_pos, keys_distinct, lemma_key_pos,
    lemma_sum_bounds, lemma_sum_remove, lemma_sum_update, sum_values};

verus! {

/// Refusals of the liquidity pool contract.
#[derive(Clone, Copy, Debug, PartialEq, Eq, PartialOrd, Ord, Structural)]
pub enum Error {
    AlreadyInitialized,
    NotInitialized,
    ContractPaused,
    AlreadyPaused,
    NotPaused,
    AmountMustBePositive,
    SharesMustBePositive,
    PoolNotFound,
    InsufficientShares,
    ZeroSharesMinted,
    WithdrawalAmountTooSmall,
    DepositBelowMinimumLiquidity,
    ArithmeticError,
}

impl Error {
    /// The contract error number under which the host reports this error.
    pub open spec fn spec_code(&self) -> u32 {
        match self {
            Error::AlreadyInitialized => 1,
            Error::NotInitialized => 2,
            Error::ContractPaused => 4,
            Error::AlreadyPaused => 5,
            Error::NotPaused => 6,
            Error::AmountMustBePositive => 7,
            Error::SharesMustBePositive => 8,
            Error::PoolNotFound => 9,
            Error::InsufficientShares => 10,
            Error::ZeroSharesMinted => 11,
            Error::WithdrawalAmountTooSmall => 12,
            Error::DepositBelowMinimumLiquidity => 13,
            Error::ArithmeticError => 14,
        }
    }

    /// The contract error number under which the host reports this error.
    #[verifier::when_used_as_spec(spec_code)]
    pub fn code(&self) -> (c: u32)
        ensures
            c == self.spec_code(),
    {
        match self {
            Error::AlreadyInitialized => 1,
            Error::NotInitialized => 2,
            Error::ContractPaused => 4,
            Error::AlreadyPaused => 5,
            Error::NotPaused => 6,
            Error::AmountMustBePositive => 7,
            Error::SharesMustBePositive => 8,
            Error::PoolNotFound => 9,
            Error::InsufficientShares => 10,
            Error::ZeroSharesMinted => 11,
            Error::WithdrawalAmountTooSmall => 12,
            Error::DepositBelowMinimumLiquidity => 13,
            Error::ArithmeticError => 14,
        }
    }
}

/// Shares locked by a pool's first deposit and never credited to a provider.
pub const MINIMUM_LIQUIDITY: i128 = 1000;

/// Public state of one token's pool.
#[derive(Clone, Copy, Debug, PartialEq, Eq, Structural)]
pub struct PoolState {
    pub token: AccountId,
    pub total_shares: i128,
    pub total_deposits: i128,
}

/// A pool together with the share balances of its providers.
pub struct Pool {
    state: PoolState,
    positions: Table<AccountId, i128>,
}

/// Shares minted for a deposit of `amount` into `pool` (`None`: no pool yet),
/// or the refusal of the deposit.
pub open spec fn deposit_outcome(pool: Option<PoolState>, amount: i128) -> Result<i128, Error> {
    if amount <= 0 {
        Err(Error::AmountMustBePositive)
    } else {
        match pool {
            None => if amount <= MINIMUM_LIQUIDITY {
                Err(Error::DepositBelowMinimumLiquidity)
            } else {
                Ok((amount - MINIMUM_LIQUIDITY) as i128)
            },
            Some(p) => {
                let product = amount * p.total_shares;
                if product > i128::MAX || p.total_deposits <= 0 {
                    Err(Error::ArithmeticError)
                } else {
                    let minted = product / (p.total_deposits as int);
                    if minted <= 0 {
                        Err(Error::ZeroSharesMinted)
                    } else if p.total_deposits + amount > i128::MAX || p.total_shares + minted > i128::MAX {
                        Err(Error::ArithmeticError)
                    } else {
                        Ok(minted as i128)
                    }
                }
            },
        }
    }
}

/// The pool after a deposit of `amount` that minted `minted` shares.
pub open spec fn pool_after_deposit(pool: Option<PoolState>, token: AccountId, amount: i128, minted: i128) -> PoolState {
    match pool {
        None => PoolState { token, total_shares: amount, total_deposits: amount },
        Some(p) => PoolState {
            token: p.token,
            total_shares: (p.total_shares + minted) as i128,
            total_deposits: (p.total_deposits + amount) as i128,
        },
    }
}

/// Underlying amount paid out for burning `shares` of a provider holding
/// `position` shares, or the refusal of the withdrawal.
pub open spec fn withdraw_outcome(pool: Option<PoolState>, position: i128, shares: i128) -> Result<i128, Error> {
    if shares <= 0 {
        Err(Error::SharesMustBePositive)
    } else {
        match pool {
            None => Err(Error::PoolNotFound),
            Some(p) => if shares > position {
                Err(Error::InsufficientShares)
            } else if shares * p.total_deposits > i128::MAX || p.total_shares <= 0 {
                Err(Error::ArithmeticError)
            } else {
                let out = (shares * p.total_deposits) / (p.total_shares as int);
                if out <= 0 {
                    Err(Error::WithdrawalAmountTooSmall)
                } else {
                    Ok(out as i128)
                }
            },
        }
    }
}

/// The pool after burning `shares` shares for `out` underlying.
pub open spec fn pool_after_withdraw(p: PoolState, shares: i128, out: i128) -> PoolState {
    PoolState {
        token: p.token,
        total_shares: (p.total_shares - shares) as i128,
        total_deposits: (p.total_deposits - out) as i128,
    }
}

/// Storage of the liquidity pool contract.
pub struct CarbonDexContract {
    admin: Option<AccountId>,
    paused: bool,
    pools: Table<AccountId, Pool>,
}

impl Pool {
    /// The share accounting of one pool: the locked shares plus the
    /// providers' balances make up the share supply, every balance is
    /// positive, and the pool always holds some deposits.
    pub closed spec fn wf_for(&self, token: AccountId) -> bool {
        &&& self.state.token == token
        &&& self.positions.wf()
        &&& MINIMUM_LIQUIDITY <= self.state.total_shares
        &&& 1 <= self.state.total_deposits
        &&& sum_values(self.positions.entry_seq()) == self.state.total_shares - MINIMUM_LIQUIDITY
        &&& forall|j: int| 0 <= j < self.positions.entry_seq().len() ==> #[trigger] self.positions.entry_seq()[j].1 > 0
    }
}

impl CarbonDexContract {
    pub closed spec fn wf(&self) -> bool {
        &&& self.pools.wf()
        &&& forall|t: AccountId| #[trigger] self.pools@.contains_key(t) ==> self.pools@[t].wf_for(t)
    }

    /// The admin set at initialisation (`None` before).
    pub closed spec fn spec_admin(&self) -> Option<AccountId> {
        self.admin
    }

    /// The pause flag (`None` before initialisation).
    pub closed spec fn spec_paused(&self) -> Option<bool> {
        if self.admin is Some { Some(self.paused) } else { None }
    }

    /// The state of `token`'s pool, `None` if nothing was ever deposited.
    pub closed spec fn spec_pool(&self, token: AccountId) -> Option<PoolState> {
        if self.pools@.contains_key(token) { Some(self.pools@[token].state) } else { None }
    }

    /// `provider`'s share balance in `token`'s pool.
    pub closed spec fn spec_position(&self, token: AccountId, provider: AccountId) -> i128 {
        if self.pools@.contains_key(token) && self.pools@[token].positions@.contains_key(provider) {
            self.pools@[token].positions@[provider]
        } else {
            0
        }
    }

    /// The shares of `token`'s pool credited to providers, all together.
    pub closed spec fn spec_shares_held(&self, token: AccountId) -> int {
        if self.pools@.contains_key(token) {
            sum_values(self.pools@[token].positions.entry_seq())
        } else {
            0
        }
    }

    /// A freshly deployed contract: no admin, no pools.
    pub fn new() -> (c: Self)
        ensures
            c.wf(),
            c.spec_admin() is None,
            forall|t: AccountId| c.spec_pool(t) is None,
            forall|t: AccountId, p: AccountId| c.spec_position(t, p) == 0,
    {
        CarbonDexContract { admin: None, paused: false, pools: Table::new() }
    }

    /// One-time setup; `admin` alone may pause and unpause.
    pub fn initialize(&mut self, signers: &Signers, admin: AccountId) -> (r: Result<(), Fault>)
        requires
            old(self).wf(),
        ensures
            final(self).wf(),
            old(self).spec_admin() is Some ==> r == Err::<(), Fault>(Fault::Dex(Error::AlreadyInitialized)),
            old(self).spec_admin() is None && !signers.authorizes(admin) ==> r == Err::<(), Fault>(Fault::Unauthorized(admin)),
            r is Ok <==> old(self).spec_admin() is None && signers.authorizes(admin),
            r is Ok ==> final(self).spec_admin() == Some(admin) && final(self).spec_paused() == Some(false),
            r is Err ==> final(self).spec_admin() == old(self).spec_admin() && final(self).spec_paused() == old(self).spec_paused(),
            forall|t: AccountId| final(self).spec_pool(t) == old(self).spec_pool(t),
            forall|t: AccountId, p: AccountId| final(self).spec_position(t, p) == old(self).spec_position(t, p),
    {
        if self.admin.is_some() {
            return Err(Fault::Dex(Error::AlreadyInitialized));
        }
        signers.require_auth(admin)?;
        self.admin = Some(admin);
        self.paused = false;
        Ok(())
    }

    /// The refusal, if any, of an entry point that needs an unpaused contract.
    fn check_not_paused(&self) -> (r: Result<(), Fault>)
        ensures
            self.spec_paused() is None ==> r == Err::<(), Fault>(Fault::Dex(Error::NotInitialized)),
            self.spec_paused() == Some(true) ==> r == Err::<(), Fault>(Fault::Dex(Error::ContractPaused)),
            self.spec_paused() == Some(false) ==> r is Ok,
    {
        if self.admin.is_none() {
            return Err(Fault::Dex(Error::NotInitialized));
        }
        if self.paused {
            return Err(Fault::Dex(Error::ContractPaused));
        }
        Ok(())
    }

    /// The parts of the storage that the entry points read and write.
    pub open spec fn same_outside(&self, other: &Self, token: AccountId, provider: AccountId) -> bool {
        &&& self.spec_admin() == other.spec_admin()
        &&& self.spec_paused() == other.spec_paused()
        &&& forall|t: AccountId| t != token ==> #[trigger] self.spec_pool(t) == other.spec_pool(t)
        &&& forall|t: AccountId, q: AccountId| (t != token || q != provider) ==> #[trigger] self.spec_position(t, q) == other.spec_position(t, q)
    }

    /// Sum bound for one provider's balance in a well-formed pool.
    proof fn lemma_position_bound(pool: &Pool, token: AccountId, provider: AccountId)
        requires
            pool.wf_for(token),
        ensures
            pool.positions@.contains_key(provider) ==> 0 < pool.positions@[provider]
                && pool.positions@[provider] <= pool.state.total_shares - MINIMUM_LIQUIDITY,
            pool.positions@.contains_key(provider) ==> has_key(pool.positions.entry_seq(), provider)
                && pool.positions.entry_seq()[key_pos(pool.positions.entry_seq(), provider)].1 == pool.positions@[provider],
            !pool.positions@.contains_key(provider) ==> !has_key(pool.positions.entry_seq(), provider),
    {
        let s = pool.positions.entry_seq();
        pool.positions.lemma_wf();
        if pool.positions@.contains_key(provider) {
            let i = key_pos(s, provider);
            lemma_key_pos(s, i);
            lemma_sum_bounds(s, i);
        }
    }

    /// Deposit `amount` of `token` from `from`, minting shares in proportion
    /// to the pool's share price. Returns the shares credited to `from`; the
    /// caller then moves `amount` of `token` from `from` to the contract.
    pub fn deposit(&mut self, signers: &Signers, from: AccountId, token: AccountId, amount: i128) -> (r: Result<i128, Fault>)
        requires
            old(self).wf(),
        ensures
            final(self).wf(),
            old(self).spec_paused() is None ==> r == Err::<i128, Fault>(Fault::Dex(Error::NotInitialized)),
            old(self).spec_paused() == Some(true) ==> r == Err::<i128, Fault>(Fault::Dex(Error::ContractPaused)),
            old(self).spec_paused() == Some(false) && !signers.authorizes(from) ==> r == Err::<i128, Fault>(Fault::Unauthorized(from)),
            old(self).spec_paused() == Some(false) && signers.authorizes(from) ==> match deposit_outcome(old(self).spec_pool(token), amount) {
                Ok(m) => r == Ok::<i128, Fault>(m),
                Err(e) => r == Err::<i128, Fault>(Fault::Dex(e)),
            },
            r is Err ==> *final(self) == *old(self),
            r matches Ok(m) ==> {
                &&& final(self).spec_pool(token) == Some(pool_after_deposit(old(self).spec_pool(token), token, amount, m))
                &&& final(self).spec_position(token, from) == old(self).spec_position(token, from) + m
                &&& final(self).same_outside(old(self), token, from)
            },
    {
        self.check_not_paused()?;
        signers.require_auth(from)?;
        if amount <= 0 {
            return Err(Fault::Dex(Error::AmountMustBePositive));
        }
        let cur = self.get_pool(token);
        let minted: i128;
        let new_state: PoolState;
        match cur {
            None => {
                if amount <= MINIMUM_LIQUIDITY {
                    return Err(Fault::Dex(Error::DepositBelowMinimumLiquidity));
                }
                minted = amount - MINIMUM_LIQUIDITY;
                new_state = PoolState { token, total_shares: amount, total_deposits: amount };
            },
            Some(p) => {
                proof {
                    assert(self.pools@[token].wf_for(token));
                    assert(self.pools@[token].state == p);
                }
                let product = match amount.checked_mul(p.total_shares) {
                    Some(v) => v,
                    None => return Err(Fault::Dex(Error::ArithmeticError)),
                };
                let m = match product.checked_div(p.total_deposits) {
                    Some(v) => v,
                    None => return Err(Fault::Dex(Error::ArithmeticError)),
                };
                if m <= 0 {
                    return Err(Fault::Dex(Error::ZeroSharesMinted));
                }
                let nd = match p.total_deposits.checked_add(amount) {
                    Some(v) => v,
                    None => return Err(Fault::Dex(Error::ArithmeticError)),
                };
                let ns = match p.total_shares.checked_add(m) {
                    Some(v) => v,
                    None => return Err(Fault::Dex(Error::ArithmeticError)),
                };
                minted = m;
                new_state = PoolState { token: p.token, total_shares: ns, total_deposits: nd };
            },
        }
        assert(deposit_outcome(cur, amount) == Ok::<i128, Error>(minted));
        assert(new_state == pool_after_deposit(cur, token, amount, minted));
        let existing = self.get_position(token, from);
        proof {
            if self.pools@.contains_key(token) {
                Self::lemma_position_bound(&self.pools@[token], token, from);
            }
        }
        let new_pos = match existing.checked_add(minted) {
            Some(v) => v,
            None => return Err(Fault::Dex(Error::ArithmeticError)),
        };
        let ghost old_self = *self;
        let mut pool = match self.pools.remove(&token) {
            Some(p) => p,
            None => Pool { state: new_state, positions: Table::new() },
        };
        let ghost s0 = pool.positions.entry_seq();
        proof {
            if old_self.pools@.contains_key(token) {
                Self::lemma_position_bound(&pool, token, from);
            }
            pool.positions.lemma_wf();
        }
        pool.state = new_state;
        pool.positions.insert(from, new_pos);
        proof {
            let s1 = pool.positions.entry_seq();
            if has_key(s0, from) {
                let i = key_pos(s0, from);
                lemma_sum_update(s0, i, (from, new_pos));
                assert forall|j: int| 0 <= j < s1.len() implies #[trigger] s1[j].1 > 0 by {
                    if j != i {
                        assert(s1[j] == s0[j]);
                    }
                }
                assert(s0[i].1 == existing);
                assert(sum_values(s1) == sum_values(s0) - existing + new_pos);
            } else {
                assert(s1.drop_last() =~= s0);
                assert(sum_values(s1) == sum_values(s0) + new_pos);
                assert(existing == 0);
                assert forall|j: int| 0 <= j < s1.len() implies #[trigger] s1[j].1 > 0 by {
                    if j < s0.len() {
                        assert(s1[j] == s0[j]);
                    }
                }
            }
            assert(pool.state.token == token);
            assert(pool.positions.wf());
            assert(MINIMUM_LIQUIDITY <= pool.state.total_shares);
            assert(1 <= pool.state.total_deposits);
            if old_self.pools@.contains_key(token) {
                assert(sum_values(s0) == old_self.pools@[token].state.total_shares - MINIMUM_LIQUIDITY);
            } else {
                assert(s0.len() == 0);
                assert(sum_values(s0) == 0);
            }
            assert(sum_values(s1) == pool.state.total_shares - MINIMUM_LIQUIDITY);
            assert(pool.wf_for(token));
        }
        self.pools.insert(token, pool);
        proof {
            assert forall|t: AccountId| #[trigger] self.pools@.contains_key(t) implies self.pools@[t].wf_for(t) by {
                if t != token {
                    assert(old_self.pools@.contains_key(t));
                }
            }
            assert forall|t: AccountId, q: AccountId| (t != token || q != from) implies #[trigger] self.spec_position(t, q) == old_self.spec_position(t, q) by {
                if t == token {
                    assert(q != from);
                }
            }
        }
        Ok(minted)
    }

    /// Burn `share_amount` of `from`'s shares in `token`'s pool. Returns the
    /// underlying amount the caller then pays out of the contract to `from`.
    pub fn withdraw(&mut self, signers: &Signers, from: AccountId, token: AccountId, share_amount: i128) -> (r: Result<i128, Fault>)
        requires
            old(self).wf(),
        ensures
            final(self).wf(),
            old(self).spec_paused() is None ==> r == Err::<i128, Fault>(Fault::Dex(Error::NotInitialized)),
            old(self).spec_paused() == Some(true) ==> r == Err::<i128, Fault>(Fault::Dex(Error::ContractPaused)),
            old(self).spec_paused() == Some(false) && !signers.authorizes(from) ==> r == Err::<i128, Fault>(Fault::Unauthorized(from)),
            old(self).spec_paused() == Some(false) && signers.authorizes(from) ==> match withdraw_outcome(
                old(self).spec_pool(token),
                old(self).spec_position(token, from),
                share_amount,
            ) {
                Ok(out) => r == Ok::<i128, Fault>(out),
                Err(e) => r == Err::<i128, Fault>(Fault::Dex(e)),
            },
            r is Err ==> *final(self) == *old(self),
            r matches Ok(out) ==> {
                &&& old(self).spec_pool(token) is Some
                &&& final(self).spec_pool(token) == Some(pool_after_withdraw(old(self).spec_pool(token).unwrap(), share_amount, out))
                &&& final(self).spec_position(token, from) == old(self).spec_position(token, from) - share_amount
                &&& final(self).same_outside(old(self), token, from)
            },
    {
        self.check_not_paused()?;
        signers.require_auth(from)?;
        if share_amount <= 0 {
            return Err(Fault::Dex(Error::SharesMustBePositive));
        }
        let cur = self.get_pool(token);
        let p = match cur {
            Some(p) => p,
            None => return Err(Fault::Dex(Error::PoolNotFound)),
        };
        let existing = self.get_position(token, from);
        proof {
            assert(self.pools@[token].wf_for(token));
            Self::lemma_position_bound(&self.pools@[token], token, from);
        }
        if share_amount > existing {
            return Err(Fault::Dex(Error::InsufficientShares));
        }
        let product = match share_amount.checked_mul(p.total_deposits) {
            Some(v) => v,
            None => return Err(Fault::Dex(Error::ArithmeticError)),
        };
        let out = match product.checked_div(p.total_shares) {
            Some(v) => v,
            None => return Err(Fault::Dex(Error::ArithmeticError)),
        };
        if out <= 0 {
            return Err(Fault::Dex(Error::WithdrawalAmountTooSmall));
        }
        proof {
            let sh = share_amount as int;
            let d = p.total_deposits as int;
            let t = p.total_shares as int;
            assert(sh < t);
            assert((sh * d) / t < d) by (nonlinear_arith)
                requires
                    0 < sh < t,
                    0 < d,
            {
                assert(sh * d < t * d);
            }
        }
        let ns = match p.total_shares.checked_sub(share_amount) {
            Some(v) => v,
            None => return Err(Fault::Dex(Error::ArithmeticError)),
        };
        let nd = match p.total_deposits.checked_sub(out) {
            Some(v) => v,
            None => return Err(Fault::Dex(Error::ArithmeticError)),
        };
        let remaining = match existing.checked_sub(share_amount) {
            Some(v) => v,
            None => return Err(Fault::Dex(Error::ArithmeticError)),
        };
        assert(withdraw_outcome(cur, existing, share_amount) == Ok::<i128, Error>(out));
        let ghost old_self = *self;
        let mut pool = self.pools.remove(&token).unwrap();
        let ghost s0 = pool.positions.entry_seq();
        proof {
            Self::lemma_position_bound(&pool, token, from);
            pool.positions.lemma_wf();
        }
        pool.state = PoolState { token: p.token, total_shares: ns, total_deposits: nd };
        if remaining == 0 {
            pool.positions.remove(&from);
        } else {
            pool.positions.insert(from, remaining);
        }
        proof {
            let s1 = pool.positions.entry_seq();
            let i = key_pos(s0, from);
            assert(s0[i].1 == existing);
            if remaining == 0 {
                lemma_sum_remove(s0, i);
                assert forall|j: int| 0 <= j < s1.len() implies #[trigger] s1[j].1 > 0 by {
                    if j < i {
                        assert(s1[j] == s0[j]);
                    } else {
                        assert(s1[j] == s0[j + 1]);
                    }
                }
            } else {
                lemma_sum_update(s0, i, (from, remaining));
                assert forall|j: int| 0 <= j < s1.len() implies #[trigger] s1[j].1 > 0 by {
                    if j != i {
                        assert(s1[j] == s0[j]);
                    }
                }
            }
            assert(sum_values(s1) == pool.state.total_shares - MINIMUM_LIQUIDITY);
            assert(pool.wf_for(token));
        }
        self.pools.insert(token, pool);
        proof {
            assert forall|t: AccountId| #[trigger] self.pools@.contains_key(t) implies self.pools@[t].wf_for(t) by {
                if t != token {
                    assert(old_self.pools@.contains_key(t));
                }
            }
            assert forall|t: AccountId, q: AccountId| (t != token || q != from) implies #[trigger] self.spec_position(t, q) == old_self.spec_position(t, q) by {
                if t == token {
                    assert(q != from);
                }
            }
            if remaining == 0 {
                assert(self.spec_position(token, from) == 0);
            }
        }
        Ok(out)
    }

    /// The refusal, if any, of an admin-only entry point.
    fn check_admin(&self, signers: &Signers) -> (r: Result<(), Fault>)
        ensures
            self.spec_admin() is None ==> r == Err::<(), Fault>(Fault::Dex(Error::NotInitialized)),
            self.spec_admin() matches Some(a) ==> (r is Ok <==> signers.authorizes(a))
                && (r is Err ==> r == Err::<(), Fault>(Fault::Unauthorized(a))),
    {
        match self.admin {
            None => Err(Fault::Dex(Error::NotInitialized)),
            Some(a) => signers.require_auth(a),
        }
    }

    /// Admin only: refuse deposits and withdrawals until `unpause`.
    pub fn pause(&mut self, signers: &Signers) -> (r: Result<(), Fault>)
        requires
            old(self).wf(),
        ensures
            final(self).wf(),
            match old(self).spec_admin() {
                None => r == Err::<(), Fault>(Fault::Dex(Error::NotInitialized)),
                Some(a) => if !signers.authorizes(a) {
                    r == Err::<(), Fault>(Fault::Unauthorized(a))
                } else if old(self).spec_paused() == Some(true) {
                    r == Err::<(), Fault>(Fault::Dex(Error::AlreadyPaused))
                } else {
                    r is Ok
                },
            },
            r is Err ==> *final(self) == *old(self),
            r is Ok ==> *final(self) == old(self).with_paused(true),
            r is Ok ==> final(self).spec_paused() == Some(true),
            final(self).spec_admin() == old(self).spec_admin(),
            forall|t: AccountId| #[trigger] final(self).spec_pool(t) == old(self).spec_pool(t),
            forall|t: AccountId, q: AccountId| #[trigger] final(self).spec_position(t, q) == old(self).spec_position(t, q),
            forall|t: AccountId| #[trigger] final(self).spec_shares_held(t) == old(self).spec_shares_held(t),
    {
        self.check_admin(signers)?;
        if self.paused {
            return Err(Fault::Dex(Error::AlreadyPaused));
        }
        self.paused = true;
        Ok(())
    }

    /// Admin only: accept deposits and withdrawals again.
    pub fn unpause(&mut self, signers: &Signers) -> (r: Result<(), Fault>)
        requires
            old(self).wf(),
        ensures
            final(self).wf(),
            match old(self).spec_admin() {
                None => r == Err::<(), Fault>(Fault::Dex(Error::NotInitialized)),
                Some(a) => if !signers.authorizes(a) {
                    r == Err::<(), Fault>(Fault::Unauthorized(a))
                } else if old(self).spec_paused() == Some(false) {
                    r == Err::<(), Fault>(Fault::Dex(Error::NotPaused))
                } else {
                    r is Ok
                },
            },
            r is Err ==> *final(self) == *old(self),
            r is Ok ==> *final(self) == old(self).with_paused(false),
            r is Ok ==> final(self).spec_paused() == Some(false),
            final(self).spec_admin() == old(self).spec_admin(),
            forall|t: AccountId| #[trigger] final(self).spec_pool(t) == old(self).spec_pool(t),
            forall|t: AccountId, q: AccountId| #[trigger] final(self).spec_position(t, q) == old(self).spec_position(t, q),
            forall|t: AccountId| #[trigger] final(self).spec_shares_held(t) == old(self).spec_shares_held(t),
    {
        self.check_admin(signers)?;
        if !self.paused {
            return Err(Fault::Dex(Error::NotPaused));
        }
        self.paused = false;
        Ok(())
    }

    /// This storage with the pause flag set to `paused`.
    pub closed spec fn with_paused(self, paused: bool) -> Self {
        CarbonDexContract { paused, ..self }
    }

    /// The state of `token`'s pool, if any.
    pub fn get_pool(&self, token: AccountId) -> (r: Option<PoolState>)
        requires
            self.wf(),
        ensures
            r == self.spec_pool(token),
    {
        match self.pools.get(&token) {
            Some(p) => Some(p.state),
            None => None,
        }
    }

    /// `provider`'s share balance in `token`'s pool; `0` if they hold none.
    pub fn get_position(&self, token: AccountId, provider: AccountId) -> (r: i128)
        requires
            self.wf(),
        ensures
            r == self.spec_position(token, provider),
    {
        match self.pools.get(&token) {
            Some(p) => {
                assert(p.positions.wf());
                match p.positions.get(&provider) {
                    Some(v) => *v,
                    None => 0,
                }
            },
            None => 0,
        }
    }
}


/// The minimum liquidity stays locked: in every reachable state each pool's
/// share supply is the locked `MINIMUM_LIQUIDITY` plus the providers'
/// balances, every balance lies between zero and the unlocked supply, and
/// the pool keeps a positive deposit.
pub proof fn law_locked_liquidity(dex: &CarbonDexContract, token: AccountId, provider: AccountId)
    requires
        dex.wf(),
        dex.spec_pool(token) is Some,
    ensures
        dex.spec_pool(token).unwrap().total_shares == MINIMUM_LIQUIDITY + dex.spec_shares_held(token),
        dex.spec_pool(token).unwrap().total_deposits >= 1,
        0 <= dex.spec_position(token, provider) <= dex.spec_pool(token).unwrap().total_shares - MINIMUM_LIQUIDITY,
{
    assert(dex.pools@[token].wf_for(token));
    CarbonDexContract::lemma_position_bound(&dex.pools@[token], token, provider);
}

/// The shares credited to providers are their positions taken together:
/// no provider holds more than all of them, and they are zero exactly when
/// every provider's position is zero.
pub proof fn law_shares_held_are_the_positions(dex: &CarbonDexContract, token: AccountId)
    requires
        dex.wf(),
    ensures
        forall|q: AccountId| 0 <= #[trigger] dex.spec_position(token, q) <= dex.spec_shares_held(token),
        dex.spec_shares_held(token) == 0 <==> forall|q: AccountId| #[trigger] dex.spec_position(token, q) == 0,
{
    if dex.pools@.contains_key(token) {
        let pool = dex.pools@[token];
        assert(pool.wf_for(token));
        assert forall|q: AccountId| 0 <= #[trigger] dex.spec_position(token, q) <= dex.spec_shares_held(token) by {
            CarbonDexContract::lemma_position_bound(&pool, token, q);
        }
        let s = pool.positions.entry_seq();
        if dex.spec_shares_held(token) != 0 {
            assert(s.len() > 0);
            pool.positions.lemma_wf();
            lemma_key_pos(s, 0);
            let k0 = s[0].0;
            assert(pool.positions@.contains_key(k0));
            assert(dex.spec_position(token, k0) == s[0].1);
            assert(dex.spec_position(token, k0) != 0);
        }
    }
}

/// A provider without a pool holds nothing in it.
pub proof fn law_no_pool_no_position(dex: &CarbonDexContract, token: AccountId, provider: AccountId)
    requires
        dex.spec_pool(token) is None,
    ensures
        dex.spec_position(token, provider) == 0,
        dex.spec_shares_held(token) == 0,
{
}

/// Depositing and at once withdrawing every share minted never pays out
/// more than was deposited: rounding always favours the pool.
pub proof fn law_round_trip_no_gain(pool: Option<PoolState>, token: AccountId, amount: i128)
    requires
        pool matches Some(p) ==> p.total_shares >= MINIMUM_LIQUIDITY && p.total_deposits >= 1,
        deposit_outcome(pool, amount) is Ok,
    ensures
        ({
            let m = deposit_outcome(pool, amount).unwrap();
            withdraw_outcome(Some(pool_after_deposit(pool, token, amount, m)), m, m) matches Ok(out) ==> out <= amount
        }),
{
    let m = deposit_outcome(pool, amount).unwrap();
    let after = pool_after_deposit(pool, token, amount, m);
    let a = amount as int;
    let mi = m as int;
    match pool {
        None => {
            assert(after.total_shares == amount && after.total_deposits == amount);
            vstd::arithmetic::div_mod::lemma_div_by_multiple(mi, a);
        },
        Some(p) => {
            let t = p.total_shares as int;
            let d = p.total_deposits as int;
            assert(mi == (a * t) / d);
            assert(after.total_shares == t + mi && after.total_deposits == d + a);
            assert((mi * (d + a)) / (t + mi) <= a) by (nonlinear_arith)
                requires
                    mi == (a * t) / d,
                    d > 0,
                    t > 0,
                    a > 0,
                    mi > 0,
            {
                assert(mi * d <= a * t);
                assert(mi * (d + a) <= a * (t + mi));
            }
        },
    }
}

/// With no fees and no outside inflows the share price never moves from
/// one: a pool whose supply equals its deposits mints exactly the amount
/// deposited, pays out exactly the shares burned, and keeps supply equal to
/// deposits after either.
pub proof fn law_share_price_stays_one(p: PoolState, amount: i128, position: i128, shares: i128)
    requires
        p.total_shares == p.total_deposits,
        p.total_deposits >= 1,
    ensures
        deposit_outcome(Some(p), amount) matches Ok(m) ==> m == amount && ({
            let q = pool_after_deposit(Some(p), p.token, amount, m);
            q.total_shares == q.total_deposits
        }),
        withdraw_outcome(Some(p), position, shares) matches Ok(out) ==> out == shares && ({
            let q = pool_after_withdraw(p, shares, out);
            q.total_shares == q.total_deposits
        }),
{
    let t = p.total_shares as int;
    if amount > 0 {
        vstd::arithmetic::div_mod::lemma_div_by_multiple(amount as int, t);
        assert((amount * p.total_shares) / (p.total_deposits as int) == amount);
    }
    if shares > 0 {
        vstd::arithmetic::div_mod::lemma_div_by_multiple(shares as int, t);
        assert((shares * p.total_deposits) / (p.total_shares as int) == shares);
    }
}

/// Pausing and then unpausing gives back the storage as it was.
pub proof fn law_pause_unpause_restores(dex: CarbonDexContract)
    requires
        dex.spec_paused() == Some(false),
    ensures
        dex.with_paused(true).with_paused(false) == dex,
{
}

} // verus!
