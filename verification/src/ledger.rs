//! The transaction ledger: an immutable, append-only log of settled
//! transfers, one row per destination account per transfer event.

use vstd::prelude::*;

use crate::Amount;

verus! {

/// The kind tag of a transfer intent and of its ledger rows.
#[derive(Clone, Copy, PartialEq, Eq, Structural, Debug)]
pub enum TipKind {
    /// A tip to a single user.
    Direct,
    /// A tip split over the members of a role.
    Role,
    /// The settlement of a reactdrop giveaway.
    Reactdrop,
}

/// One immutable row of the ledger. A transfer to `n` destinations
/// produces `n` rows sharing one event id.
#[derive(Clone, Copy, PartialEq, Eq, Structural, Debug)]
pub struct LedgerEntry {
    pub event_id: u128,
    pub source: u64,
    pub destination: u64,
    pub amount: Amount,
    pub kind: TipKind,
    pub timestamp: i64,
}

/// The sum, in base units, of the amounts of a run of ledger rows.
pub open spec fn entries_units(s: Seq<LedgerEntry>) -> int
    decreases s.len(),
{
    if s.len() == 0 {
        0
    } else {
        s[0].amount.units + entries_units(s.drop_first())
    }
}

/// Rows that all carry the same share sum to share times their count.
pub proof fn lemma_uniform_entries_units(s: Seq<LedgerEntry>, share: u64)
    requires
        forall|i: int| 0 <= i < s.len() ==> s[i].amount.units == share,
    ensures
        entries_units(s) == share * s.len(),
    decreases s.len(),
{
    if s.len() == 0 {
        assert(share * 0 == 0) by {
            vstd::arithmetic::mul::lemma_mul_basics(share as int);
        }
    } else {
        lemma_uniform_entries_units(s.drop_first(), share);
        assert(share * s.len() == share * (s.len() - 1) + share) by {
            vstd::arithmetic::mul::lemma_mul_is_distributive_sub(
                share as int,
                s.len() as int,
                1,
            );
            vstd::arithmetic::mul::lemma_mul_basics(share as int);
        }
    }
}

/// Append-only log of settled transfers. Rows are only ever added by a
/// successful settlement, never changed or removed.
pub struct Ledger {
    entries: Vec<LedgerEntry>,
}

impl View for Ledger {
    type V = Seq<LedgerEntry>;

    closed spec fn view(&self) -> Seq<LedgerEntry> {
        self.entries@
    }
}

impl Ledger {
    /// An empty ledger.
    pub fn new() -> (r: Ledger)
        ensures
            r@.len() == 0,
    {
        Ledger { entries: Vec::new() }
    }

    /// How many rows the ledger holds.
    pub fn len(&self) -> (r: usize)
        ensures
            r == self@.len(),
    {
        self.entries.len()
    }

    /// Reads one row.
    pub fn entry_at(&self, i: usize) -> (r: LedgerEntry)
        requires
            i < self@.len(),
        ensures
            r == self@[i as int],
    {
        self.entries[i]
    }

    /// Appends one settled row; only settlement reaches this.
    pub(crate) fn append(&mut self, e: LedgerEntry)
        ensures
            final(self)@ == old(self)@.push(e),
    {
        self.entries.push(e);
    }
}

} // verus!
