//! Mutex flag guarding state-mutating entry points against reentrant calls.

use vstd::prelude::*;
use crate::common::Fault;

verus! {

/// Raised when a guarded function is entered while the lock is held.
#[derive(Clone, Copy, Debug, PartialEq, Eq, PartialOrd, Ord, Structural)]
pub enum ReentrancyError {
    Reentrancy,
}

impl ReentrancyError {
    pub open spec fn spec_code(&self) -> u32 {
        match self {
            ReentrancyError::Reentrancy => 200,
        }
    }

    #[verifier::when_used_as_spec(spec_code)]
    pub fn code(&self) -> (c: u32)
        ensures
            c == self.spec_code(),
    {
        match self {
            ReentrancyError::Reentrancy => 200,
        }
    }
}

/// The reentrancy lock flag of one contract instance.
#[derive(Debug)]
pub struct ReentrancyGuard {
    locked: bool,
}

impl ReentrancyGuard {
    pub closed spec fn spec_locked(&self) -> bool {
        self.locked
    }

    /// A fresh instance: the flag was never set.
    pub fn new() -> (g: Self)
        ensures
            !g.spec_locked(),
    {
        ReentrancyGuard { locked: false }
    }

    /// Takes the lock. Refused, with the flag untouched, when it is already
    /// held (a reentrant call).
    pub fn acquire(&mut self) -> (r: Result<(), Fault>)
        ensures
            old(self).spec_locked() ==> r == Err::<(), Fault>(Fault::Reentrancy(ReentrancyError::Reentrancy))
                && final(self).spec_locked(),
            !old(self).spec_locked() ==> r is Ok && final(self).spec_locked(),
    {
        if self.locked {
            return Err(Fault::Reentrancy(ReentrancyError::Reentrancy));
        }
        self.locked = true;
        Ok(())
    }

    /// Clears the lock, as the guard does when it goes out of scope.
    pub fn release(&mut self)
        ensures
            !final(self).spec_locked(),
    {
        self.locked = false;
    }

    /// Whether the lock is currently held.
    #[verifier::when_used_as_spec(spec_locked)]
    pub fn is_locked(&self) -> (r: bool)
        ensures
            r == self.spec_locked(),
    {
        self.locked
    }
}

} // verus!
