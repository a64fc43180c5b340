//! The transfer engine: validates a transfer intent and executes it
//! atomically — an even split of the requested amount over the
//! destinations, one balance-store mutation, one ledger row per
//! destination under a single fresh event id.

use vstd::prelude::*;

use crate::Amount;
use crate::BalanceStore;
use crate::TransferError;
use crate::MIN_TIP_UNITS;
use crate::balance::credited_to;
use crate::balance::units_total;
use crate::external::new_event_id;
use crate::external::now_timestamp;
use crate::ledger::entries_units;
use crate::ledger::lemma_uniform_entries_units;
use crate::ledger::Ledger;
use crate::ledger::LedgerEntry;
use crate::ledger::TipKind;

verus! {

/// A transfer to be validated and executed: source account, the
/// destination accounts (non-empty, no duplicates), the requested
/// total, and a kind tag. Ephemeral — it exists only while it runs.
pub struct TransferIntent {
    pub source: u64,
    pub destinations: Vec<u64>,
    pub amount: Amount,
    pub kind: TipKind,
}

impl TransferIntent {
    /// No destination account is listed twice.
    pub open spec fn no_duplicate_destinations(self) -> bool {
        forall|i: int, j: int|
            0 <= i < j < self.destinations@.len() ==> self.destinations@[i]
                != self.destinations@[j]
    }
}

/// What a successful transfer did: the requested total, the share each
/// destination received, the total actually moved (the remainder of an
/// uneven split stays with the sender), and the fresh event id and
/// timestamp its ledger rows carry.
#[derive(Clone, Copy, PartialEq, Eq, Structural, Debug)]
pub struct Settlement {
    pub event_id: u128,
    pub requested: Amount,
    pub share: Amount,
    pub moved_total: Amount,
    pub timestamp: i64,
}

/// Whether an intent passes validation against a store: a non-empty
/// destination set, at least the minimum tip, and a source balance
/// covering the requested total.
pub open spec fn intent_validates(intent: TransferIntent, store: BalanceStore) -> bool {
    &&& intent.destinations@.len() > 0
    &&& intent.amount.units >= MIN_TIP_UNITS
    &&& store.balance_of(intent.source) >= intent.amount.units
}

/// A credit list that grants one uniform share to each account of a
/// duplicate-free list totals share-times-count and grants the share
/// exactly to the listed accounts.
proof fn lemma_uniform_credits(credits: Seq<(u64, u64)>, dests: Seq<u64>, share: u64, x: u64)
    requires
        credits.len() == dests.len(),
        forall|j: int| 0 <= j < credits.len() ==> credits[j] == (dests[j], share),
        forall|i: int, j: int| 0 <= i < j < dests.len() ==> dests[i] != dests[j],
    ensures
        units_total(credits) == share * credits.len(),
        credited_to(credits, x) == if dests.contains(x) {
            share as int
        } else {
            0
        },
    decreases credits.len(),
{
    if credits.len() == 0 {
        assert(!dests.contains(x));
        assert(share * 0 == 0) by {
            vstd::arithmetic::mul::lemma_mul_basics(share as int);
        }
    } else {
        let ct = credits.drop_first();
        let dt = dests.drop_first();
        assert forall|j: int| 0 <= j < ct.len() implies ct[j] == (dt[j], share) by {
            assert(credits[j + 1] == (dests[j + 1], share));
        }
        lemma_uniform_credits(ct, dt, share, x);
        assert(share * credits.len() == share * (credits.len() - 1) + share) by {
            vstd::arithmetic::mul::lemma_mul_is_distributive_sub(
                share as int,
                credits.len() as int,
                1,
            );
            vstd::arithmetic::mul::lemma_mul_basics(share as int);
        }
        if dests[0] == x {
            assert(dests.contains(x));
            assert(!dt.contains(x)) by {
                if dt.contains(x) {
                    let i = choose|i: int| 0 <= i < dt.len() && dt[i] == x;
                    assert(dests[i + 1] == x);
                }
            }
        } else {
            assert(dt.contains(x) == dests.contains(x)) by {
                if dt.contains(x) {
                    let i = choose|i: int| 0 <= i < dt.len() && dt[i] == x;
                    assert(dests[i + 1] == x);
                }
                if dests.contains(x) {
                    let i = choose|i: int| 0 <= i < dests.len() && dests[i] == x;
                    assert(i != 0);
                    assert(dt[i - 1] == x);
                }
            }
        }
    }
}

/// The even-split policy, for every requested total and every
/// destination count: each recipient's share is `floor(total / n)`, so
/// no recipient receives an uneven share; the moved total
/// `floor(total / n) * n` never exceeds the requested total; and the
/// remainder the sender keeps is less than one unit per destination —
/// no base unit is destroyed or duplicated.
pub proof fn lemma_split_policy(total: u64, n: u64)
    requires
        n > 0,
    ensures
        0 <= (total as int / n as int) * n <= total,
        total - (total as int / n as int) * n < n,
{
    let a = total as int;
    let d = n as int;
    vstd::arithmetic::div_mod::lemma_fundamental_div_mod(a, d);
    vstd::arithmetic::div_mod::lemma_mod_bound(a, d);
    vstd::arithmetic::div_mod::lemma_div_pos_is_pos(a, d);
    vstd::arithmetic::mul::lemma_mul_is_commutative(a / d, d);
    vstd::arithmetic::mul::lemma_mul_nonnegative(a / d, d);
}

/// Validates and atomically executes a transfer intent.
///
/// The requested amount is split evenly: each destination receives
/// `floor(amount / n)` base units; the remainder stays with the sender,
/// so the sender is debited only the moved total. On success, exactly
/// one ledger row per destination is appended, all sharing one fresh
/// event id and summing to the moved total. A failed validation leaves
/// the store and the ledger untouched.
pub fn execute_transfer(
    intent: &TransferIntent,
    store: &mut BalanceStore,
    ledger: &mut Ledger,
) -> (r: Result<Settlement, TransferError>)
    requires
        old(store).wf(),
        intent.no_duplicate_destinations(),
    ensures
        final(store).wf(),
        r is Ok <==> intent_validates(*intent, *old(store)),
        (match r {
            Ok(s) => {
                let n = intent.destinations@.len() as int;
                let oldlen = old(ledger)@.len() as int;
                &&& s.requested == intent.amount
                &&& s.share.units == intent.amount.units as int / n
                &&& s.moved_total.units == s.share.units * n
                &&& s.moved_total.units <= intent.amount.units
                &&& forall|x: u64|
                    final(store).balance_of(x) == old(store).balance_of(x) - (if x
                        == intent.source {
                        s.moved_total.units as int
                    } else {
                        0
                    }) + (if intent.destinations@.contains(x) {
                        s.share.units as int
                    } else {
                        0
                    })
                &&& final(ledger)@.len() == oldlen + n
                &&& forall|i: int| 0 <= i < oldlen ==> final(ledger)@[i] == old(ledger)@[i]
                &&& forall|i: int|
                    0 <= i < n ==> final(ledger)@[oldlen + i] == (LedgerEntry {
                        event_id: s.event_id,
                        source: intent.source,
                        destination: intent.destinations@[i],
                        amount: s.share,
                        kind: intent.kind,
                        timestamp: s.timestamp,
                    })
                &&& entries_units(final(ledger)@.skip(oldlen)) == s.moved_total.units
                &&& units_total(final(store)@) == units_total(old(store)@)
            }
            Err(e) => {
                &&& final(store)@ == old(store)@
                &&& final(ledger)@ == old(ledger)@
                &&& (e == TransferError::InvalidSplit <==> intent.destinations@.len() == 0)
                &&& (e == TransferError::BelowMinimum <==> intent.destinations@.len() > 0
                    && intent.amount.units < MIN_TIP_UNITS)
                &&& (e == TransferError::InsufficientFunds <==> intent.destinations@.len() > 0
                    && intent.amount.units >= MIN_TIP_UNITS && old(store).balance_of(
                    intent.source,
                ) < intent.amount.units)
            }
        }),
{
    let n = intent.destinations.len();
    if n == 0 {
        return Err(TransferError::InvalidSplit);
    }
    if intent.amount.units < MIN_TIP_UNITS {
        return Err(TransferError::BelowMinimum);
    }

    let n64: u64 = n as u64;
    let share: u64 = intent.amount.units / n64;
    proof {
        let a = intent.amount.units as int;
        let d = n64 as int;
        vstd::arithmetic::div_mod::lemma_fundamental_div_mod(a, d);
        vstd::arithmetic::div_mod::lemma_mod_bound(a, d);
        assert(share as int == a / d);
        vstd::arithmetic::mul::lemma_mul_is_commutative(share as int, d);
        assert(share as int * d == a - a % d);
        assert(share as int * d <= a);
    }
    let moved: u64 = share * n64;

    let mut credits: Vec<(u64, u64)> = Vec::new();
    let mut i: usize = 0;
    while i < n
        invariant
            i <= n,
            n == intent.destinations@.len(),
            credits@.len() == i,
            forall|j: int| 0 <= j < i ==> credits@[j] == (intent.destinations@[j], share),
        decreases n - i,
    {
        credits.push((intent.destinations[i], share));
        i = i + 1;
    }

    proof {
        lemma_uniform_credits(credits@, intent.destinations@, share, 0);
        assert(credits@.len() == n64 as int);
        assert(units_total(credits@) == share as int * n64 as int);
        assert(units_total(credits@) <= intent.amount.units);
        assert forall|x: u64|
            credited_to(credits@, x) == (if intent.destinations@.contains(x) {
                share as int
            } else {
                0
            }) by {
            lemma_uniform_credits(credits@, intent.destinations@, share, x);
        }
    }

    let have = store.get_balance(intent.source);
    if have < intent.amount.units {
        return Err(TransferError::InsufficientFunds);
    }

    match store.try_debit_and_credit(intent.source, &credits) {
        Err(e) => {
            // the moved total never exceeds the checked balance
            proof {
                assert(false);
            }
            Err(e)
        }
        Ok(()) => {
            let event_id = new_event_id();
            let ts = now_timestamp();
            let ghost l0 = ledger@;
            let mut i: usize = 0;
            while i < n
                invariant
                    i <= n,
                    n == intent.destinations@.len(),
                    ledger@.len() == l0.len() + i,
                    forall|k: int| 0 <= k < l0.len() ==> ledger@[k] == l0[k],
                    forall|k: int|
                        0 <= k < i ==> ledger@[l0.len() + k] == (LedgerEntry {
                            event_id,
                            source: intent.source,
                            destination: intent.destinations@[k],
                            amount: Amount { units: share },
                            kind: intent.kind,
                            timestamp: ts,
                        }),
                decreases n - i,
            {
                ledger.append(
                    LedgerEntry {
                        event_id,
                        source: intent.source,
                        destination: intent.destinations[i],
                        amount: Amount { units: share },
                        kind: intent.kind,
                        timestamp: ts,
                    },
                );
                i = i + 1;
            }
            proof {
                let ol = l0.len() as int;
                let rows = ledger@.skip(ol);
                assert(rows.len() == n);
                assert forall|k: int| 0 <= k < rows.len() implies rows[k].amount.units
                    == share by {
                    assert(rows[k] == ledger@[k + ol]);
                    assert(ledger@[ol + k] == (LedgerEntry {
                        event_id,
                        source: intent.source,
                        destination: intent.destinations@[k],
                        amount: Amount { units: share },
                        kind: intent.kind,
                        timestamp: ts,
                    }));
                }
                lemma_uniform_entries_units(rows, share);
            }
            Ok(
                Settlement {
                    event_id,
                    requested: intent.amount,
                    share: Amount { units: share },
                    moved_total: Amount { units: moved },
                    timestamp: ts,
                },
            )
        }
    }
}

} // verus!
