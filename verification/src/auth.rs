//! The authorization capability check.
//!
//! Whether an identity has consented to the current call is decided outside
//! the ledger (signatures, host capabilities); the ledger only asks.  The
//! check is injected as an [`Authorizer`], so the state machine is verified
//! against every possible answer.  [`SignerSet`] is a concrete authorizer
//! backed by an explicit list of consenting identities.

use vstd::prelude::*;

verus! {

/// An opaque capability check: has this identity authorized the call?
pub trait Authorizer {
    /// Which identities have authorized the current call.
    spec fn authorized(&self, identity: u64) -> bool;

    /// Performs the capability check for the identity.
    fn verify(&self, identity: u64) -> (granted: bool)
        ensures
            granted == self.authorized(identity),
    ;
}

/// An authorizer that grants exactly the identities it was told to.
pub struct SignerSet {
    signers: Vec<u64>,
}

impl SignerSet {
    /// An authorizer that grants nobody.
    pub fn new() -> (signers: Self)
        ensures
            forall|identity: u64| !signers.authorized(identity),
    {
        SignerSet { signers: Vec::new() }
    }

    /// Grants the identity, leaving every other identity as it was.
    pub fn grant(&mut self, identity: u64)
        ensures
            forall|other: u64| #[trigger]
                final(self).authorized(other) == (old(self).authorized(other) || other
                    == identity),
    {
        self.signers.push(identity);
        proof {
            let before = old(self).signers@;
            let after = self.signers@;
            assert forall|other: u64| #[trigger]
                self.authorized(other) == (old(self).authorized(other) || other == identity) by {
                if before.contains(other) {
                    let i = choose|i: int| 0 <= i < before.len() && before[i] == other;
                    assert(after[i] == other);
                    assert(after.contains(other));
                }
                if other == identity {
                    assert(after[before.len() as int] == other);
                    assert(after.contains(other));
                }
                if after.contains(other) {
                    let i = choose|i: int| 0 <= i < after.len() && after[i] == other;
                    if i < before.len() {
                        assert(before[i] == other);
                        assert(before.contains(other));
                    }
                }
            }
        }
    }
}

impl Authorizer for SignerSet {
    /// Granted means: the identity stands in the list.
    closed spec fn authorized(&self, identity: u64) -> bool {
        self.signers@.contains(identity)
    }

    fn verify(&self, identity: u64) -> (granted: bool) {
        let n: usize = self.signers.len();
        let mut i: usize = 0;
        while i < n
            invariant
                n == self.signers@.len(),
                i <= n,
                forall|j: int| 0 <= j < i ==> self.signers@[j] != identity,
            decreases n - i,
        {
            if self.signers[i] == identity {
                return true;
            }
            i += 1;
        }
        false
    }
}

} // verus!
