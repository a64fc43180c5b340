//! The balance store: a mapping from account identifier to a
//! non-negative balance in base units, with an atomic all-or-nothing
//! debit-and-credit operation.

use vstd::prelude::*;
use vstd::pervasive::VecAdditionalExecFns;

use crate::TransferError;
use crate::MAX_UNITS;

verus! {

/// No account identifier occurs twice.
pub open spec fn keys_unique(s: Seq<(u64, u64)>) -> bool {
    forall|i: int, j: int| 0 <= i < j < s.len() ==> s[i].0 != s[j].0
}

/// Whether some entry carries this account.
pub open spec fn has_key(s: Seq<(u64, u64)>, a: u64) -> bool {
    exists|i: int| 0 <= i < s.len() && s[i].0 == a
}

/// The balance recorded for an account; zero when the account is
/// unknown.
pub open spec fn lookup(s: Seq<(u64, u64)>, a: u64) -> int
    decreases s.len(),
{
    if s.len() == 0 {
        0
    } else if s[0].0 == a {
        s[0].1 as int
    } else {
        lookup(s.drop_first(), a)
    }
}

/// The sum of the unit counts of a sequence of (account, units) pairs.
pub open spec fn units_total(s: Seq<(u64, u64)>) -> int
    decreases s.len(),
{
    if s.len() == 0 {
        0
    } else {
        s[0].1 + units_total(s.drop_first())
    }
}

/// The units a credit list grants to one account, duplicates summed.
pub open spec fn credited_to(credits: Seq<(u64, u64)>, a: u64) -> int
    decreases credits.len(),
{
    if credits.len() == 0 {
        0
    } else {
        (if credits[0].0 == a {
            credits[0].1 as int
        } else {
            0
        }) + credited_to(credits.drop_first(), a)
    }
}

pub proof fn lemma_units_total_nonneg(s: Seq<(u64, u64)>)
    ensures
        units_total(s) >= 0,
    decreases s.len(),
{
    if s.len() > 0 {
        lemma_units_total_nonneg(s.drop_first());
    }
}

pub proof fn lemma_lookup_nonneg(s: Seq<(u64, u64)>, a: u64)
    ensures
        lookup(s, a) >= 0,
    decreases s.len(),
{
    if s.len() > 0 {
        lemma_lookup_nonneg(s.drop_first(), a);
    }
}

/// Whatever sequence of deposits and transfers built a store, no
/// account's balance is ever negative.
pub proof fn lemma_balance_nonnegative(store: BalanceStore, a: u64)
    ensures
        store.balance_of(a) >= 0,
{
    lemma_lookup_nonneg(store@, a);
}

/// Every single balance is at most the sum of all balances.
pub proof fn lemma_lookup_le_total(s: Seq<(u64, u64)>, a: u64)
    ensures
        lookup(s, a) <= units_total(s),
    decreases s.len(),
{
    if s.len() > 0 {
        lemma_lookup_le_total(s.drop_first(), a);
        lemma_units_total_nonneg(s.drop_first());
        lemma_lookup_nonneg(s.drop_first(), a);
    }
}

proof fn lemma_units_total_push(s: Seq<(u64, u64)>, x: (u64, u64))
    ensures
        units_total(s.push(x)) == units_total(s) + x.1,
    decreases s.len(),
{
    let t = s.push(x);
    if s.len() == 0 {
        assert(t[0] == x);
        assert(t.drop_first() =~= Seq::<(u64, u64)>::empty());
        assert(units_total(t) == t[0].1 + units_total(t.drop_first()));
        assert(units_total(Seq::<(u64, u64)>::empty()) == 0);
    } else {
        assert(t[0] == s[0]);
        assert(t.drop_first() =~= s.drop_first().push(x));
        lemma_units_total_push(s.drop_first(), x);
        assert(units_total(t) == t[0].1 + units_total(t.drop_first()));
    }
}

proof fn lemma_lookup_push(s: Seq<(u64, u64)>, x: (u64, u64), a: u64)
    ensures
        lookup(s.push(x), a) == if has_key(s, a) {
            lookup(s, a)
        } else if x.0 == a {
            x.1 as int
        } else {
            0
        },
    decreases s.len(),
{
    let t = s.push(x);
    if s.len() == 0 {
        assert(t[0] == x);
        assert(t.drop_first() =~= Seq::<(u64, u64)>::empty());
        assert(lookup(Seq::<(u64, u64)>::empty(), a) == 0);
        assert(lookup(t, a) == if t[0].0 == a {
            t[0].1 as int
        } else {
            lookup(t.drop_first(), a)
        });
    } else {
        assert(t[0] == s[0]);
        assert(t.drop_first() =~= s.drop_first().push(x));
        lemma_lookup_push(s.drop_first(), x, a);
        assert(lookup(t, a) == if t[0].0 == a {
            t[0].1 as int
        } else {
            lookup(t.drop_first(), a)
        });
        if s[0].0 == a {
            assert(has_key(s, a));
        }
        if s[0].0 != a {
            assert(has_key(s, a) == has_key(s.drop_first(), a)) by {
                if has_key(s, a) {
                    let i = choose|i: int| 0 <= i < s.len() && s[i].0 == a;
                    assert(s.drop_first()[i - 1].0 == a);
                }
                if has_key(s.drop_first(), a) {
                    let i = choose|i: int|
                        0 <= i < s.drop_first().len() && s.drop_first()[i].0 == a;
                    assert(s[i + 1].0 == a);
                }
            }
        }
    }
}

proof fn lemma_lookup_update(s: Seq<(u64, u64)>, i: int, v: u64, a: u64)
    requires
        keys_unique(s),
        0 <= i < s.len(),
    ensures
        lookup(s.update(i, (s[i].0, v)), a) == if a == s[i].0 {
            v as int
        } else {
            lookup(s, a)
        },
        units_total(s.update(i, (s[i].0, v))) == units_total(s) - s[i].1 + v,
    decreases s.len(),
{
    let t = s.update(i, (s[i].0, v));
    if i == 0 {
        assert(t.drop_first() =~= s.drop_first());
    } else {
        assert(t.drop_first() =~= s.drop_first().update(i - 1, (s.drop_first()[i - 1].0, v)));
        lemma_lookup_update(s.drop_first(), i - 1, v, a);
    }
}

proof fn lemma_lookup_absent(s: Seq<(u64, u64)>, a: u64)
    requires
        !has_key(s, a),
    ensures
        lookup(s, a) == 0,
    decreases s.len(),
{
    if s.len() > 0 {
        assert(s[0].0 != a);
        assert(!has_key(s.drop_first(), a)) by {
            if has_key(s.drop_first(), a) {
                let i = choose|i: int|
                    0 <= i < s.drop_first().len() && s.drop_first()[i].0 == a;
                assert(s[i + 1].0 == a);
            }
        }
        lemma_lookup_absent(s.drop_first(), a);
    }
}

proof fn lemma_lookup_at(s: Seq<(u64, u64)>, i: int, a: u64)
    requires
        keys_unique(s),
        0 <= i < s.len(),
        s[i].0 == a,
    ensures
        lookup(s, a) == s[i].1 as int,
    decreases s.len(),
{
    if i > 0 {
        lemma_lookup_at(s.drop_first(), i - 1, a);
    }
}

/// Persistent mapping from account identifier to balance. Unknown
/// accounts read as zero; an account is created lazily by its first
/// credit.
pub struct BalanceStore {
    entries: Vec<(u64, u64)>,
    running_total: u64,
}

impl View for BalanceStore {
    type V = Seq<(u64, u64)>;

    closed spec fn view(&self) -> Seq<(u64, u64)> {
        self.entries@
    }
}

impl BalanceStore {
    /// Accounts are unique, the recorded running total is the true
    /// total, and the whole store holds at most `MAX_UNITS` units.
    pub closed spec fn wf(self) -> bool {
        &&& keys_unique(self@)
        &&& self.running_total as int == units_total(self@)
        &&& units_total(self@) <= MAX_UNITS
    }

    /// The balance of an account, as a mathematical integer.
    pub open spec fn balance_of(self, a: u64) -> int {
        lookup(self@, a)
    }

    /// An empty store.
    pub fn new() -> (r: BalanceStore)
        ensures
            r.wf(),
            forall|a: u64| r.balance_of(a) == 0,
            r@.len() == 0,
    {
        BalanceStore { entries: Vec::new(), running_total: 0 }
    }

    fn position_of(&self, a: u64) -> (r: Option<usize>)
        ensures
            match r {
                Some(i) => i < self@.len() && self@[i as int].0 == a,
                None => !has_key(self@, a),
            },
    {
        let n = self.entries.len();
        let mut i: usize = 0;
        while i < n
            invariant
                i <= n,
                n == self@.len(),
                forall|j: int| 0 <= j < i ==> self@[j].0 != a,
            decreases n - i,
        {
            if self.entries[i].0 == a {
                return Some(i);
            }
            i = i + 1;
        }
        None
    }

    /// The balance of an account; zero for an unknown account. Never
    /// fails.
    pub fn get_balance(&self, a: u64) -> (r: u64)
        requires
            self.wf(),
        ensures
            r as int == self.balance_of(a),
    {
        match self.position_of(a) {
            Some(i) => {
                proof {
                    lemma_lookup_at(self@, i as int, a);
                }
                self.entries[i].1
            }
            None => {
                proof {
                    lemma_lookup_absent(self@, a);
                }
                0
            }
        }
    }

    /// Adds `amt` units to one account, creating it if unknown.
    fn credit_one(&mut self, a: u64, amt: u64)
        requires
            keys_unique(old(self)@),
            old(self).running_total as int == units_total(old(self)@),
            units_total(old(self)@) + amt <= MAX_UNITS,
        ensures
            keys_unique(final(self)@),
            final(self).running_total as int == units_total(final(self)@),
            units_total(final(self)@) == units_total(old(self)@) + amt,
            forall|x: u64|
                final(self).balance_of(x) == old(self).balance_of(x) + (if x == a {
                    amt as int
                } else {
                    0
                }),
    {
        proof {
            lemma_units_total_nonneg(self@);
        }
        match self.position_of(a) {
            Some(i) => {
                proof {
                    lemma_lookup_at(self@, i as int, a);
                    lemma_lookup_le_total(self@, a);
                }
                let b = self.entries[i].1;
                self.entries.set(i, (a, b + amt));
                self.running_total = self.running_total + amt;
                proof {
                    assert forall|x: u64|
                        self.balance_of(x) == old(self).balance_of(x) + (if x == a {
                            amt as int
                        } else {
                            0
                        }) by {
                        lemma_lookup_update(old(self)@, i as int, (b + amt) as u64, x);
                        if x == a {
                            lemma_lookup_at(old(self)@, i as int, a);
                        }
                    }
                    lemma_lookup_update(old(self)@, i as int, (b + amt) as u64, a);
                    assert(keys_unique(self@));
                }
            }
            None => {
                self.entries.push((a, amt));
                self.running_total = self.running_total + amt;
                proof {
                    lemma_units_total_push(old(self)@, (a, amt));
                    assert forall|x: u64|
                        self.balance_of(x) == old(self).balance_of(x) + (if x == a {
                            amt as int
                        } else {
                            0
                        }) by {
                        lemma_lookup_push(old(self)@, (a, amt), x);
                        if x == a {
                            lemma_lookup_absent(old(self)@, a);
                        } else if !has_key(old(self)@, x) {
                            lemma_lookup_absent(old(self)@, x);
                        }
                    }
                    assert forall|i: int, j: int|
                        0 <= i < j < self@.len() implies self@[i].0 != self@[j].0 by {
                        if j == self@.len() - 1 {
                            assert(self@[i].0 == old(self)@[i].0);
                        }
                    }
                }
            }
        }
    }

    /// Removes `amt` units from one account.
    fn debit_one(&mut self, a: u64, amt: u64)
        requires
            keys_unique(old(self)@),
            old(self).running_total as int == units_total(old(self)@),
            old(self).balance_of(a) >= amt,
        ensures
            keys_unique(final(self)@),
            final(self).running_total as int == units_total(final(self)@),
            units_total(final(self)@) == units_total(old(self)@) - amt,
            forall|x: u64|
                final(self).balance_of(x) == old(self).balance_of(x) - (if x == a {
                    amt as int
                } else {
                    0
                }),
    {
        match self.position_of(a) {
            Some(i) => {
                proof {
                    lemma_lookup_at(self@, i as int, a);
                    lemma_lookup_le_total(self@, a);
                    lemma_units_total_nonneg(self@);
                }
                let b = self.entries[i].1;
                self.entries.set(i, (a, b - amt));
                self.running_total = self.running_total - amt;
                proof {
                    assert forall|x: u64|
                        self.balance_of(x) == old(self).balance_of(x) - (if x == a {
                            amt as int
                        } else {
                            0
                        }) by {
                        lemma_lookup_update(old(self)@, i as int, (b - amt) as u64, x);
                        if x == a {
                            lemma_lookup_at(old(self)@, i as int, a);
                        }
                    }
                    lemma_lookup_update(old(self)@, i as int, (b - amt) as u64, a);
                }
            }
            None => {
                proof {
                    lemma_lookup_absent(self@, a);
                }
                // balance is zero, so the debit is of zero units
            }
        }
    }

    /// Credits an account from outside the store (a deposit from the
    /// backing wallet). Returns `false`, changing nothing, when the
    /// store would exceed `MAX_UNITS` in total.
    pub fn deposit(&mut self, a: u64, amt: u64) -> (ok: bool)
        requires
            old(self).wf(),
        ensures
            final(self).wf(),
            ok == (units_total(old(self)@) + amt <= MAX_UNITS),
            ok ==> forall|x: u64|
                final(self).balance_of(x) == old(self).balance_of(x) + (if x == a {
                    amt as int
                } else {
                    0
                }),
            !ok ==> final(self)@ == old(self)@,
    {
        if amt <= MAX_UNITS - self.running_total {
            self.credit_one(a, amt);
            true
        } else {
            false
        }
    }

    /// Atomically debits the source by the credit list's total and
    /// credits each listed account, or does nothing at all.
    ///
    /// Succeeds exactly when the source balance covers the total of the
    /// credit list; on failure the store is untouched and
    /// `InsufficientFunds` is returned.
    pub fn try_debit_and_credit(
        &mut self,
        source: u64,
        credits: &Vec<(u64, u64)>,
    ) -> (r: Result<(), TransferError>)
        requires
            old(self).wf(),
        ensures
            final(self).wf(),
            r is Ok <==> old(self).balance_of(source) >= units_total(credits@),
            r is Ok ==> forall|x: u64|
                final(self).balance_of(x) == old(self).balance_of(x) - (if x == source {
                    units_total(credits@)
                } else {
                    0
                }) + credited_to(credits@, x),
            r is Ok ==> units_total(final(self)@) == units_total(old(self)@),
            r is Err ==> final(self)@ == old(self)@ && r == Err::<(), TransferError>(
                TransferError::InsufficientFunds,
            ),
    {
        let n = credits.len();

        // First total the credits; a sum that does not even fit the
        // store's capacity can never be covered by a balance.
        let mut sum: u64 = 0;
        let mut i: usize = 0;
        while i < n
            invariant
                i <= n,
                n == credits@.len(),
                sum as int == units_total(credits@.take(i as int)),
                sum <= MAX_UNITS,
                *self == *old(self),
                self.wf(),
            decreases n - i,
        {
            let c = credits[i].1;
            proof {
                assert(credits@.take(i + 1 as int) =~= credits@.take(i as int).push(
                    credits@[i as int],
                ));
                lemma_units_total_push(credits@.take(i as int), credits@[i as int]);
            }
            if c > MAX_UNITS - sum {
                proof {
                    lemma_units_total_take_le(credits@, i + 1 as int);
                    lemma_lookup_le_total(self@, source);
                }
                return Err(TransferError::InsufficientFunds);
            }
            sum = sum + c;
            i = i + 1;
        }
        proof {
            assert(credits@.take(n as int) =~= credits@);
        }

        let have = self.get_balance(source);
        if have < sum {
            return Err(TransferError::InsufficientFunds);
        }

        self.debit_one(source, sum);
        let ghost mid = *self;
        let mut i: usize = 0;
        while i < n
            invariant
                i <= n,
                n == credits@.len(),
                keys_unique(self@),
                self.running_total as int == units_total(self@),
                units_total(self@) == units_total(mid@) + units_total(credits@.take(i as int)),
                units_total(mid@) + units_total(credits@) <= MAX_UNITS,
                forall|x: u64|
                    self.balance_of(x) == mid.balance_of(x) + credited_to(
                        credits@.take(i as int),
                        x,
                    ),
                forall|x: u64|
                    mid.balance_of(x) == old(self).balance_of(x) - (if x == source {
                        units_total(credits@)
                    } else {
                        0
                    }),
                old(self).balance_of(source) >= units_total(credits@),
            decreases n - i,
        {
            let (acct, amt) = credits[i];
            proof {
                assert(credits@.take(i + 1 as int) =~= credits@.take(i as int).push(
                    credits@[i as int],
                ));
                lemma_units_total_push(credits@.take(i as int), credits@[i as int]);
                lemma_units_total_take_le(credits@, i + 1 as int);
            }
            self.credit_one(acct, amt);
            proof {
                assert forall|x: u64|
                    self.balance_of(x) == mid.balance_of(x) + credited_to(
                        credits@.take(i + 1 as int),
                        x,
                    ) by {
                    lemma_credited_to_push(credits@.take(i as int), credits@[i as int], x);
                }
            }
            i = i + 1;
        }
        proof {
            assert(credits@.take(n as int) =~= credits@);
        }
        Ok(())
    }
}

/// A prefix of a credit list grants at most the whole list's total.
proof fn lemma_units_total_take_le(s: Seq<(u64, u64)>, i: int)
    requires
        0 <= i <= s.len(),
    ensures
        units_total(s.take(i)) <= units_total(s),
    decreases s.len() - i,
{
    if i < s.len() {
        assert(s.take(i + 1) =~= s.take(i).push(s[i]));
        lemma_units_total_push(s.take(i), s[i]);
        lemma_units_total_take_le(s, i + 1);
        assert(s.take(s.len() as int) =~= s);
    } else {
        assert(s.take(i) =~= s);
    }
}

proof fn lemma_credited_to_push(s: Seq<(u64, u64)>, x: (u64, u64), a: u64)
    ensures
        credited_to(s.push(x), a) == credited_to(s, a) + (if x.0 == a {
            x.1 as int
        } else {
            0
        }),
    decreases s.len(),
{
    let t = s.push(x);
    if s.len() == 0 {
        assert(t[0] == x);
        assert(t.drop_first() =~= Seq::<(u64, u64)>::empty());
        assert(credited_to(Seq::<(u64, u64)>::empty(), a) == 0);
        assert(credited_to(t, a) == (if t[0].0 == a {
            t[0].1 as int
        } else {
            0
        }) + credited_to(t.drop_first(), a));
    } else {
        assert(t[0] == s[0]);
        assert(t.drop_first() =~= s.drop_first().push(x));
        lemma_credited_to_push(s.drop_first(), x, a);
        assert(credited_to(t, a) == (if t[0].0 == a {
            t[0].1 as int
        } else {
            0
        }) + credited_to(t.drop_first(), a));
    }
}

} // verus!
