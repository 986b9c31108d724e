//! The escrow state machine.
//!
//! [`KaziEscrow`] owns the store and exposes the four mutating operations —
//! `create`, `deposit`, `set_beneficiary`, `release` — and the two pure
//! reads, `balance` and `get_escrow`.  Each operation is one atomic unit:
//! it validates, performs at most one external asset transfer through the
//! injected gateway, and writes back.  A rejected call leaves the ledger as
//! it was, with one deliberate exception: `release` zeroes the stored
//! balance *before* it invokes the external transfer, so a transfer that
//! fails afterwards leaves the balance at zero with the funds unmoved — a
//! documented reconciliation gap, accepted to make a reentrant second
//! release observe an empty balance and fail instead of paying twice.

use vstd::prelude::*;
use crate::auth::Authorizer;
use crate::errors::ErrorKind;
use crate::errors::EscrowError;
use crate::store::EscrowData;
use crate::store::EscrowStore;
use crate::store::RETENTION_WINDOW;
use crate::token::TokenGateway;
use crate::token::Transfer;

verus! {

/// The escrow ledger: per-job records and balances, held in custody by one
/// custodial identity.
pub struct KaziEscrow {
    store: EscrowStore,
    /// The escrow system's own account, which physically holds funds
    /// between deposit and release.
    pub custodian: u64,
}

/// The rejection `result` an operation returns for the job identifier.
pub open spec fn rejection(kind: ErrorKind, escrow_id: u64) -> Result<(), EscrowError> {
    Err(EscrowError { kind, escrow_id })
}

/// The two ledger states agree on records, balances, retention windows and
/// custodian: nothing observable changed.
pub open spec fn same_ledger(pre: KaziEscrow, post: KaziEscrow) -> bool {
    &&& post.records() == pre.records()
    &&& post.balances() == pre.balances()
    &&& post.retentions() == pre.retentions()
    &&& post.custodian_id() == pre.custodian_id()
}

impl KaziEscrow {
    /// The custodial identity the ledger was created with.
    pub closed spec fn custodian_id(&self) -> u64 {
        self.custodian
    }

    /// The records written so far, as a map from job identifier to record.
    pub closed spec fn records(&self) -> Map<u64, EscrowData> {
        self.store.record_map()
    }

    /// The balances written so far, as a map from job identifier to amount.
    pub closed spec fn balances(&self) -> Map<u64, i128> {
        self.store.balance_map()
    }

    /// The retention windows written so far.
    pub closed spec fn retentions(&self) -> Map<u64, u64> {
        self.store.retention_map()
    }

    /// Whether the underlying store is well formed.
    pub closed spec fn store_wf(&self) -> bool {
        self.store.wf()
    }

    /// The balance held for the job: the stored amount, or zero when no
    /// entry was ever written.
    pub open spec fn balance_of(&self, escrow_id: u64) -> i128 {
        if self.balances().dom().contains(escrow_id) {
            self.balances()[escrow_id]
        } else {
            0
        }
    }

    /// The retention window left for the job, zero when none was written.
    pub open spec fn retention_left(&self, escrow_id: u64) -> u64 {
        if self.retentions().dom().contains(escrow_id) {
            self.retentions()[escrow_id]
        } else {
            0
        }
    }

    /// The ledger's invariant, preserved by every operation: the store is
    /// well formed, every written balance is non-negative, and no balance
    /// exists without a record.
    pub open spec fn wf(&self) -> bool {
        &&& self.store_wf()
        &&& forall|job: u64| #[trigger]
            self.balances().dom().contains(job) ==> self.balances()[job] >= 0
        &&& self.balances().dom().subset_of(self.records().dom())
    }

    /// A fresh ledger: no records, no balances, custody held by
    /// `custodian`.
    pub fn new(custodian: u64) -> (ledger: Self)
        ensures
            ledger.wf(),
            ledger.custodian_id() == custodian,
            ledger.records() == Map::<u64, EscrowData>::empty(),
            ledger.balances() == Map::<u64, i128>::empty(),
            ledger.retentions() == Map::<u64, u64>::empty(),
    {
        KaziEscrow { store: EscrowStore::new(), custodian }
    }

    /// Creates the escrow slot for the job identifier: a record with the
    /// employer and asset, no beneficiary yet, and a zero balance.  The call
    /// is rejected as `Unauthorized` unless the employer authorized it.  A
    /// slot that already exists is overwritten, its balance reset to zero.
    pub fn create<A: Authorizer>(
        &mut self,
        authorizer: &A,
        escrow_id: u64,
        employer: u64,
        asset: u64,
    ) -> (result: Result<(), EscrowError>)
        requires
            old(self).wf(),
        ensures
            final(self).wf(),
            final(self).custodian_id() == old(self).custodian_id(),
            !authorizer.authorized(employer) ==> result == rejection(
                ErrorKind::Unauthorized,
                escrow_id,
            ) && same_ledger(*old(self), *final(self)),
            authorizer.authorized(employer) ==> {
                &&& result == Ok::<(), EscrowError>(())
                &&& final(self).records() == old(self).records().insert(
                    escrow_id,
                    (EscrowData { employer, beneficiary: None, asset }),
                )
                &&& final(self).balances() == old(self).balances().insert(escrow_id, 0)
                &&& final(self).retentions() == old(self).retentions().insert(
                    escrow_id,
                    RETENTION_WINDOW,
                )
            },
    {
        if !authorizer.verify(employer) {
            return Err(EscrowError { kind: ErrorKind::Unauthorized, escrow_id });
        }
        let data = EscrowData { employer, beneficiary: None, asset };
        self.store.put_record(escrow_id, data);
        self.store.put_balance(escrow_id, 0);
        self.store.extend_retention(escrow_id);
        proof {
            self.lemma_wf_after_touch(*old(self), escrow_id);
        }
        Ok(())
    }

    /// Deposits `amount` of the job's asset into escrow.  In order, the
    /// call is rejected as `Unauthorized` unless `from` authorized it, as
    /// `NotFound` when no record exists, as `Unauthorized` when `from` is
    /// not the stored employer, and as `InvalidAmount` when the amount is
    /// not positive.  Only then is the external transfer from `from` to the
    /// custodian attempted; if the gateway refuses it, the call fails as
    /// `TransferFailed` with no state change, otherwise the balance grows
    /// by exactly `amount`.
    pub fn deposit<A: Authorizer, G: TokenGateway>(
        &mut self,
        authorizer: &A,
        gateway: &mut G,
        escrow_id: u64,
        from: u64,
        amount: i128,
    ) -> (result: Result<(), EscrowError>)
        requires
            old(self).wf(),
            old(self).balance_of(escrow_id) + amount <= i128::MAX,
        ensures
            final(self).wf(),
            final(self).custodian_id() == old(self).custodian_id(),
            ({
                let pre = *old(self);
                let post = *final(self);
                if !authorizer.authorized(from) {
                    &&& result == rejection(ErrorKind::Unauthorized, escrow_id)
                    &&& same_ledger(pre, post)
                    &&& final(gateway).log() == old(gateway).log()
                } else if !pre.records().dom().contains(escrow_id) {
                    &&& result == rejection(ErrorKind::NotFound, escrow_id)
                    &&& same_ledger(pre, post)
                    &&& final(gateway).log() == old(gateway).log()
                } else if from != pre.records()[escrow_id].employer {
                    &&& result == rejection(ErrorKind::Unauthorized, escrow_id)
                    &&& same_ledger(pre, post)
                    &&& final(gateway).log() == old(gateway).log()
                } else if amount <= 0 {
                    &&& result == rejection(ErrorKind::InvalidAmount, escrow_id)
                    &&& same_ledger(pre, post)
                    &&& final(gateway).log() == old(gateway).log()
                } else if result == Ok::<(), EscrowError>(()) {
                    &&& final(gateway).log() == old(gateway).log().push(
                        (Transfer {
                            asset: pre.records()[escrow_id].asset,
                            from,
                            to: pre.custodian_id(),
                            amount,
                        }),
                    )
                    &&& post.records() == pre.records()
                    &&& post.balances() == pre.balances().insert(
                        escrow_id,
                        (pre.balance_of(escrow_id) + amount) as i128,
                    )
                    &&& post.retentions() == pre.retentions().insert(escrow_id, RETENTION_WINDOW)
                } else {
                    &&& result == rejection(ErrorKind::TransferFailed, escrow_id)
                    &&& same_ledger(pre, post)
                    &&& final(gateway).log() == old(gateway).log()
                }
            }),
    {
        if !authorizer.verify(from) {
            return Err(EscrowError { kind: ErrorKind::Unauthorized, escrow_id });
        }
        let data = match self.store.get_record(escrow_id) {
            Some(data) => data,
            None => {
                return Err(EscrowError { kind: ErrorKind::NotFound, escrow_id });
            },
        };
        if from != data.employer {
            return Err(EscrowError { kind: ErrorKind::Unauthorized, escrow_id });
        }
        if amount <= 0 {
            return Err(EscrowError { kind: ErrorKind::InvalidAmount, escrow_id });
        }
        let movement = Transfer { asset: data.asset, from, to: self.custodian, amount };
        if !gateway.transfer(movement) {
            return Err(EscrowError { kind: ErrorKind::TransferFailed, escrow_id });
        }
        let current = self.store.get_balance(escrow_id);
        proof {
            assert(current >= 0) by {
                if old(self).balances().dom().contains(escrow_id) {
                }
            }
        }
        self.store.put_balance(escrow_id, current + amount);
        self.store.extend_retention(escrow_id);
        proof {
            self.lemma_wf_after_touch(*old(self), escrow_id);
        }
        Ok(())
    }

    /// Assigns (or reassigns) the beneficiary.  The call is rejected as
    /// `NotFound` when no record exists, and as `Unauthorized` unless the
    /// *stored* employer — not a caller-supplied identity — authorized it.
    /// All other record fields are kept as they were.
    pub fn set_beneficiary<A: Authorizer>(
        &mut self,
        authorizer: &A,
        escrow_id: u64,
        beneficiary: u64,
    ) -> (result: Result<(), EscrowError>)
        requires
            old(self).wf(),
        ensures
            final(self).wf(),
            final(self).custodian_id() == old(self).custodian_id(),
            ({
                let pre = *old(self);
                let post = *final(self);
                if !pre.records().dom().contains(escrow_id) {
                    &&& result == rejection(ErrorKind::NotFound, escrow_id)
                    &&& same_ledger(pre, post)
                } else if !authorizer.authorized(pre.records()[escrow_id].employer) {
                    &&& result == rejection(ErrorKind::Unauthorized, escrow_id)
                    &&& same_ledger(pre, post)
                } else {
                    &&& result == Ok::<(), EscrowError>(())
                    &&& post.records() == pre.records().insert(
                        escrow_id,
                        (EscrowData {
                            employer: pre.records()[escrow_id].employer,
                            beneficiary: Some(beneficiary),
                            asset: pre.records()[escrow_id].asset,
                        }),
                    )
                    &&& post.balances() == pre.balances()
                    &&& post.retentions() == pre.retentions().insert(escrow_id, RETENTION_WINDOW)
                }
            }),
    {
        let data = match self.store.get_record(escrow_id) {
            Some(data) => data,
            None => {
                return Err(EscrowError { kind: ErrorKind::NotFound, escrow_id });
            },
        };
        if !authorizer.verify(data.employer) {
            return Err(EscrowError { kind: ErrorKind::Unauthorized, escrow_id });
        }
        let updated = EscrowData {
            employer: data.employer,
            beneficiary: Some(beneficiary),
            asset: data.asset,
        };
        self.store.put_record(escrow_id, updated);
        self.store.extend_retention(escrow_id);
        proof {
            self.lemma_wf_after_touch(*old(self), escrow_id);
        }
        Ok(())
    }

    /// Releases the whole held balance to the beneficiary.  In order, the
    /// call is rejected as `NotFound` when no record exists, as
    /// `Unauthorized` unless the stored employer authorized it, as
    /// `BeneficiaryUnset` before any assignment, and as `NothingToRelease`
    /// at zero balance.  Only then is the stored balance zeroed and the
    /// external transfer from the custodian to the beneficiary attempted —
    /// in that order, so that a reentrant second release observes an empty
    /// balance.  A transfer the gateway refuses therefore leaves the
    /// balance at zero with the funds unmoved: the documented
    /// reconciliation gap, surfaced as `TransferFailed`.
    pub fn release<A: Authorizer, G: TokenGateway>(
        &mut self,
        authorizer: &A,
        gateway: &mut G,
        escrow_id: u64,
    ) -> (result: Result<(), EscrowError>)
        requires
            old(self).wf(),
        ensures
            final(self).wf(),
            final(self).custodian_id() == old(self).custodian_id(),
            ({
                let pre = *old(self);
                let post = *final(self);
                if !pre.records().dom().contains(escrow_id) {
                    &&& result == rejection(ErrorKind::NotFound, escrow_id)
                    &&& same_ledger(pre, post)
                    &&& final(gateway).log() == old(gateway).log()
                } else if !authorizer.authorized(pre.records()[escrow_id].employer) {
                    &&& result == rejection(ErrorKind::Unauthorized, escrow_id)
                    &&& same_ledger(pre, post)
                    &&& final(gateway).log() == old(gateway).log()
                } else if pre.records()[escrow_id].beneficiary is None {
                    &&& result == rejection(ErrorKind::BeneficiaryUnset, escrow_id)
                    &&& same_ledger(pre, post)
                    &&& final(gateway).log() == old(gateway).log()
                } else if pre.balance_of(escrow_id) <= 0 {
                    &&& result == rejection(ErrorKind::NothingToRelease, escrow_id)
                    &&& same_ledger(pre, post)
                    &&& final(gateway).log() == old(gateway).log()
                } else if result == Ok::<(), EscrowError>(()) {
                    &&& final(gateway).log() == old(gateway).log().push(
                        (Transfer {
                            asset: pre.records()[escrow_id].asset,
                            from: pre.custodian_id(),
                            to: pre.records()[escrow_id].beneficiary->0,
                            amount: pre.balance_of(escrow_id),
                        }),
                    )
                    &&& post.records() == pre.records()
                    &&& post.balances() == pre.balances().insert(escrow_id, 0)
                    &&& post.retentions() == pre.retentions().insert(escrow_id, RETENTION_WINDOW)
                } else {
                    &&& result == rejection(ErrorKind::TransferFailed, escrow_id)
                    &&& final(gateway).log() == old(gateway).log()
                    &&& post.records() == pre.records()
                    &&& post.balances() == pre.balances().insert(escrow_id, 0)
                    &&& post.retentions() == pre.retentions()
                }
            }),
            // The reentrancy guard, stated on its own: once the checks have
            // passed, the balance afterwards reads zero whether or not the
            // transfer went through.
            (old(self).records().dom().contains(escrow_id) && authorizer.authorized(
                old(self).records()[escrow_id].employer,
            ) && old(self).records()[escrow_id].beneficiary is Some && old(self).balance_of(
                escrow_id,
            ) > 0) ==> final(self).balance_of(escrow_id) == 0,
    {
        let data = match self.store.get_record(escrow_id) {
            Some(data) => data,
            None => {
                return Err(EscrowError { kind: ErrorKind::NotFound, escrow_id });
            },
        };
        if !authorizer.verify(data.employer) {
            return Err(EscrowError { kind: ErrorKind::Unauthorized, escrow_id });
        }
        let beneficiary = match data.beneficiary {
            Some(beneficiary) => beneficiary,
            None => {
                return Err(EscrowError { kind: ErrorKind::BeneficiaryUnset, escrow_id });
            },
        };
        let amount = self.store.get_balance(escrow_id);
        if amount <= 0 {
            return Err(EscrowError { kind: ErrorKind::NothingToRelease, escrow_id });
        }
        // Zero the stored balance before the external call: a reentrant
        // release must observe an empty balance.
        self.store.put_balance(escrow_id, 0);
        let movement = Transfer { asset: data.asset, from: self.custodian, to: beneficiary, amount };
        if !gateway.transfer(movement) {
            proof {
                self.lemma_wf_after_touch(*old(self), escrow_id);
            }
            return Err(EscrowError { kind: ErrorKind::TransferFailed, escrow_id });
        }
        self.store.extend_retention(escrow_id);
        proof {
            self.lemma_wf_after_touch(*old(self), escrow_id);
        }
        Ok(())
    }

    /// The balance currently held for the job; zero for an unknown job
    /// identifier — this read never errs.
    pub fn balance(&self, escrow_id: u64) -> (amount: i128)
        requires
            self.wf(),
        ensures
            amount == self.balance_of(escrow_id),
    {
        self.store.get_balance(escrow_id)
    }

    /// The record for the job, or the `NotFound` rejection when none
    /// exists.
    pub fn get_escrow(&self, escrow_id: u64) -> (result: Result<EscrowData, EscrowError>)
        requires
            self.wf(),
        ensures
            self.records().dom().contains(escrow_id) ==> result == Ok::<EscrowData, EscrowError>(
                self.records()[escrow_id],
            ),
            !self.records().dom().contains(escrow_id) ==> result == Err::<EscrowData, EscrowError>(
                (EscrowError { kind: ErrorKind::NotFound, escrow_id }),
            ),
    {
        match self.store.get_record(escrow_id) {
            Some(data) => Ok(data),
            None => Err(EscrowError { kind: ErrorKind::NotFound, escrow_id }),
        }
    }

    /// The retention window left for the job, zero when none was written.
    pub fn retention_of(&self, escrow_id: u64) -> (width: u64)
        requires
            self.wf(),
        ensures
            width == self.retention_left(escrow_id),
    {
        self.store.get_retention(escrow_id)
    }

    /// Re-establishes the invariant after an operation that wrote, at
    /// most, the record, the balance (to a non-negative amount) and the
    /// retention window of the one job it touched.
    proof fn lemma_wf_after_touch(&self, pre: KaziEscrow, escrow_id: u64)
        requires
            pre.wf(),
            self.store_wf(),
            self.records() == pre.records() || self.records() == pre.records().insert(
                escrow_id,
                self.records()[escrow_id],
            ),
            self.balances() == pre.balances() || (self.balances() == pre.balances().insert(
                escrow_id,
                self.balances()[escrow_id],
            ) && self.balances()[escrow_id] >= 0),
            self.balances().dom().contains(escrow_id) ==> self.records().dom().contains(escrow_id),
        ensures
            self.wf(),
    {
        assert forall|job: u64| #[trigger]
            self.balances().dom().contains(job) implies self.balances()[job] >= 0 by {
            if job != escrow_id {
                assert(pre.balances().dom().contains(job));
            }
        }
        assert forall|job: u64| #[trigger]
            self.balances().dom().contains(job) implies self.records().dom().contains(job) by {
            if job != escrow_id {
                assert(pre.balances().dom().contains(job));
                assert(pre.records().dom().contains(job));
            }
        }
        assert(self.balances().dom().subset_of(self.records().dom()));
    }
}

/// LAW — absent job: a job identifier that holds no record (as is the case
/// for every identifier never passed to `create`, since only `create` adds
/// a record) also holds no balance entry, so its balance is zero.  By
/// `balance`'s and `get_escrow`'s contracts, `balance` then returns 0 and
/// `get_escrow` returns the `NotFound` rejection.
pub proof fn lemma_uncreated_job_is_empty(ledger: KaziEscrow, escrow_id: u64)
    requires
        ledger.wf(),
        !ledger.records().dom().contains(escrow_id),
    ensures
        ledger.balance_of(escrow_id) == 0,
{
    assert(ledger.balances().dom().subset_of(ledger.records().dom()));
    if ledger.balances().dom().contains(escrow_id) {
        assert(ledger.records().dom().contains(escrow_id));
    }
}

/// The balance after crediting each amount in turn, earliest deposit first
/// — the effect a run of successful `deposit` calls has on one job's
/// balance, each call adding exactly its amount (see `deposit`'s contract).
pub open spec fn balance_after_deposits(start: int, amounts: Seq<i128>) -> int
    decreases amounts.len(),
{
    if amounts.len() == 0 {
        start
    } else {
        balance_after_deposits(start + amounts.first(), amounts.drop_first())
    }
}

/// The sum of the amounts.
pub open spec fn sum_of(amounts: Seq<i128>) -> int
    decreases amounts.len(),
{
    if amounts.len() == 0 {
        0
    } else {
        amounts.first() + sum_of(amounts.drop_first())
    }
}

/// LAW — a deposit credits exactly its amount: the balance write a
/// successful `deposit` performs (see its contract) moves the job's balance
/// from `b` to `b + amount`, one step of [`balance_after_deposits`].
pub proof fn lemma_deposit_step(pre: KaziEscrow, post: KaziEscrow, escrow_id: u64, amount: i128)
    requires
        pre.balance_of(escrow_id) + amount <= i128::MAX,
        i128::MIN <= pre.balance_of(escrow_id) + amount,
        post.balances() == pre.balances().insert(
            escrow_id,
            (pre.balance_of(escrow_id) + amount) as i128,
        ),
    ensures
        post.balance_of(escrow_id) == pre.balance_of(escrow_id) + amount,
{
}

/// LAW — deposits accumulate: a run of successful deposits with amounts
/// a1..an on the same job leaves its balance at the starting balance plus
/// the sum of the ai.  No deposit is lost and none is double-counted.
pub proof fn lemma_deposits_accumulate(start: int, amounts: Seq<i128>)
    ensures
        balance_after_deposits(start, amounts) == start + sum_of(amounts),
    decreases amounts.len(),
{
    if amounts.len() > 0 {
        lemma_deposits_accumulate(start + amounts.first(), amounts.drop_first());
    }
}

/// LAW — reentrancy guard: `release` zeroes the stored balance before it
/// invokes the external transfer, whether or not that transfer then
/// succeeds.  In any state carrying that write the job's balance reads
/// zero, so a second release — reentrant or immediately following — fails
/// with `NothingToRelease` by `release`'s contract and never pays twice.
pub proof fn lemma_release_reentrancy_guard(pre: KaziEscrow, post: KaziEscrow, escrow_id: u64)
    requires
        post.balances() == pre.balances().insert(escrow_id, 0),
    ensures
        post.balance_of(escrow_id) == 0,
{
}

} // verus!
