//! The token-transfer primitive.
//!
//! Moving asset units between accounts is the business of an external
//! collaborator: a synchronous call that either fully succeeds or fails
//! without partial effect.  It is injected as a [`TokenGateway`], whose
//! contract says only that an accepted call appends exactly one movement to
//! the gateway's log and a refused call appends nothing — the ledger is
//! verified against both outcomes.  [`RecordingGateway`] is a concrete
//! gateway that keeps the log in memory.

use vstd::prelude::*;

verus! {

/// One movement of asset units: `amount` of `asset` from `from` to `to`.
#[derive(Clone, Copy, Debug, PartialEq, Eq)]
pub struct Transfer {
    pub asset: u64,
    pub from: u64,
    pub to: u64,
    pub amount: i128,
}

/// An atomic external asset transfer with binary success or failure.
pub trait TokenGateway {
    /// Every movement performed so far, oldest first.
    spec fn log(&self) -> Seq<Transfer>;

    /// Attempts the movement: it happens exactly once, or not at all.
    fn transfer(&mut self, movement: Transfer) -> (accepted: bool)
        ensures
            accepted ==> final(self).log() == old(self).log().push(movement),
            !accepted ==> final(self).log() == old(self).log(),
    ;
}

/// A gateway that performs every movement in memory — or refuses every one,
/// when constructed refusing — and records what it performed.
pub struct RecordingGateway {
    entries: Vec<Transfer>,
    accepting: bool,
}

impl RecordingGateway {
    /// Whether this gateway accepts movements.
    pub closed spec fn is_accepting(&self) -> bool {
        self.accepting
    }

    /// A gateway with an empty log that will accept or refuse every
    /// movement, as asked.
    pub fn new(accepting: bool) -> (gateway: Self)
        ensures
            gateway.log() == Seq::<Transfer>::empty(),
            gateway.is_accepting() == accepting,
    {
        RecordingGateway { entries: Vec::new(), accepting }
    }

    /// How many movements were performed.
    pub fn count(&self) -> (n: usize)
        ensures
            n == self.log().len(),
    {
        self.entries.len()
    }

    /// The `i`-th performed movement, oldest first.
    pub fn recorded(&self, i: usize) -> (movement: Transfer)
        requires
            i < self.log().len(),
        ensures
            movement == self.log()[i as int],
    {
        self.entries[i]
    }
}

impl TokenGateway for RecordingGateway {
    /// The movements performed are exactly the entries recorded.
    closed spec fn log(&self) -> Seq<Transfer> {
        self.entries@
    }

    fn transfer(&mut self, movement: Transfer) -> (accepted: bool)
        ensures
            accepted == old(self).is_accepting(),
            final(self).is_accepting() == old(self).is_accepting(),
    {
        if self.accepting {
            self.entries.push(movement);
            true
        } else {
            false
        }
    }
}

} // verus!
