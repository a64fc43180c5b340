//! The deferred settlement scheduler's state: a reactdrop is persisted
//! at creation, outlives any live chat session, and is settled exactly
//! once by whichever sweep worker wins the atomic Pending -> Settling
//! claim after its deadline.

use vstd::prelude::*;

use crate::Amount;
use crate::BalanceStore;
use crate::TransferError;
use crate::MIN_TIP_UNITS;
use crate::engine::execute_transfer;
use crate::engine::Settlement;
use crate::engine::TransferIntent;
use crate::external::is_known_emoji;
use crate::external::now_timestamp;
use crate::external::unicode_emoji_exists;
use crate::ledger::Ledger;
use crate::ledger::LedgerEntry;
use crate::ledger::TipKind;

verus! {

/// The unit in which a reactdrop's duration is entered.
#[derive(Clone, Copy, PartialEq, Eq, Structural, Debug)]
pub enum Hms {
    Hours,
    Minutes,
}

/// Seconds per entered unit.
pub open spec fn unit_factor(unit: Hms) -> int {
    match unit {
        Hms::Hours => 3600,
        Hms::Minutes => 60,
    }
}

/// Turns an entered duration into whole seconds; `None` when the
/// result would not fit.
pub fn duration_seconds(time: i64, unit: Hms) -> (r: Option<i64>)
    requires
        time >= 0,
    ensures
        time * unit_factor(unit) <= i64::MAX ==> r == Some((time * unit_factor(unit)) as i64),
        time * unit_factor(unit) > i64::MAX ==> r is None,
{
    let factor: i64 = match unit {
        Hms::Hours => 3600,
        Hms::Minutes => 60,
    };
    let q: i64 = i64::MAX / factor;
    proof {
        vstd::arithmetic::div_mod::lemma_fundamental_div_mod(i64::MAX as int, factor as int);
        vstd::arithmetic::div_mod::lemma_mod_bound(i64::MAX as int, factor as int);
    }
    if time <= q {
        proof {
            vstd::arithmetic::mul::lemma_mul_inequality(time as int, q as int, factor as int);
            vstd::arithmetic::mul::lemma_mul_is_commutative(q as int, factor as int);
        }
        Some(time * factor)
    } else {
        proof {
            vstd::arithmetic::mul::lemma_mul_inequality(
                q as int + 1,
                time as int,
                factor as int,
            );
            vstd::arithmetic::mul::lemma_mul_is_distributive_add_other_way(
                factor as int,
                q as int,
                1,
            );
            vstd::arithmetic::mul::lemma_mul_basics(factor as int);
            vstd::arithmetic::mul::lemma_mul_is_commutative(q as int, factor as int);
        }
        None
    }
}

/// The reaction token that starts a reactdrop: a unicode emoji, or a
/// guild-custom emoji that the messaging edge has already looked up in
/// the guild's own emoji list (only the platform can resolve that).
#[derive(Clone, Debug)]
pub enum Trigger {
    Unicode(String),
    Custom { emoji_id: u64, in_guild: bool },
}

/// A trigger token is usable when it is a known unicode emoji, or a
/// custom emoji confirmed to live in the guild.
pub open spec fn trigger_valid(t: Trigger) -> bool {
    match t {
        Trigger::Unicode(s) => is_known_emoji(s@),
        Trigger::Custom { emoji_id: _, in_guild } => in_guild,
    }
}

/// The lifecycle of a reactdrop. `Pending` may move to `Settling` only
/// through the atomic claim; `Settling` ends in `Settled` or, with no
/// participants, the claim path ends in `Expired`. Nothing ever moves
/// back to `Pending`.
#[derive(Clone, Copy, PartialEq, Eq, Structural, Debug)]
pub enum ReactdropStatus {
    Pending,
    Settling,
    Settled,
    Expired,
}

/// A claim succeeds only on a pending reactdrop.
pub open spec fn claim_succeeds(s: ReactdropStatus) -> bool {
    s is Pending
}

/// The status a claim attempt leaves behind.
pub open spec fn after_claim(s: ReactdropStatus, due: bool) -> ReactdropStatus {
    if due && claim_succeeds(s) {
        ReactdropStatus::Settling
    } else {
        s
    }
}

/// A reactdrop is claimed for settlement at most once: after any claim
/// attempt, a successful one in particular, no further claim can
/// succeed. With the claim taken as the atomic step, exactly one sweep
/// worker wins the `Pending -> Settling` transition per reactdrop.
pub proof fn lemma_claim_at_most_once(s: ReactdropStatus, due1: bool, due2: bool)
    ensures
        due1 && claim_succeeds(s) ==> !(due2 && claim_succeeds(after_claim(s, due1))),
{
}

/// A persisted deferred giveaway. It carries everything settlement will
/// need, so it survives the loss of the live session it was created in.
#[derive(Clone, Debug)]
pub struct Reactdrop {
    pub id: u64,
    pub initiator: u64,
    pub trigger: Trigger,
    pub amount: Amount,
    pub channel: u64,
    pub message: u64,
    pub deadline: i64,
    pub status: ReactdropStatus,
}

impl Reactdrop {
    /// Whether the deadline has been reached.
    pub fn is_due(&self, now: i64) -> (r: bool)
        ensures
            r == (now >= self.deadline),
    {
        now >= self.deadline
    }

    /// The atomic claim a sweep worker must win before settling: moves
    /// `Pending` to `Settling` once the deadline is reached, and fails
    /// in every other state, so the losing side of a race aborts
    /// silently.
    pub fn claim_due(&mut self, now: i64) -> (claimed: bool)
        ensures
            claimed == (now >= old(self).deadline && claim_succeeds(old(self).status)),
            final(self).status == after_claim(old(self).status, now >= old(self).deadline),
            *final(self) == (Reactdrop { status: final(self).status, ..*old(self) }),
    {
        if now >= self.deadline {
            match self.status {
                ReactdropStatus::Pending => {
                    self.status = ReactdropStatus::Settling;
                    true
                }
                _ => false,
            }
        } else {
            false
        }
    }
}

/// Validates and builds a new reactdrop for persisting: the trigger
/// must be usable, the committed amount at least the minimum tip, and
/// the initiator's balance must cover the amount at creation time.
/// Funds are validated, never reserved — they move only at settlement,
/// so the balance may have changed by then. The deadline is
/// `now + duration_secs`, saturated at the largest representable time.
pub fn create_reactdrop(
    id: u64,
    initiator: u64,
    trigger: Trigger,
    amount: Amount,
    channel: u64,
    message: u64,
    now: i64,
    duration_secs: i64,
    store: &BalanceStore,
) -> (r: Result<Reactdrop, TransferError>)
    requires
        duration_secs >= 0,
        store.wf(),
    ensures
        r is Ok <==> trigger_valid(trigger) && amount.units >= MIN_TIP_UNITS
            && store.balance_of(initiator) >= amount.units,
        (match r {
            Ok(d) => {
                &&& d.id == id
                &&& d.initiator == initiator
                &&& d.trigger == trigger
                &&& d.amount == amount
                &&& d.channel == channel
                &&& d.message == message
                &&& d.status is Pending
                &&& d.deadline == (if now + duration_secs <= i64::MAX {
                    now + duration_secs
                } else {
                    i64::MAX as int
                })
            }
            Err(e) => {
                &&& (e == TransferError::InvalidTrigger <==> !trigger_valid(trigger))
                &&& (e == TransferError::BelowMinimum <==> trigger_valid(trigger)
                    && amount.units < MIN_TIP_UNITS)
                &&& (e == TransferError::InsufficientFunds <==> trigger_valid(trigger)
                    && amount.units >= MIN_TIP_UNITS && store.balance_of(initiator)
                    < amount.units)
            }
        }),
{
    let usable = match &trigger {
        Trigger::Unicode(s) => unicode_emoji_exists(s.as_str()),
        Trigger::Custom { emoji_id: _, in_guild } => *in_guild,
    };
    if !usable {
        return Err(TransferError::InvalidTrigger);
    }
    if amount.units < MIN_TIP_UNITS {
        return Err(TransferError::BelowMinimum);
    }
    if store.get_balance(initiator) < amount.units {
        return Err(TransferError::InsufficientFunds);
    }
    let deadline: i64 = if now <= i64::MAX - duration_secs {
        now + duration_secs
    } else {
        i64::MAX
    };
    Ok(
        Reactdrop {
            id,
            initiator,
            trigger,
            amount,
            channel,
            message,
            deadline,
            status: ReactdropStatus::Pending,
        },
    )
}

/// Opens a reactdrop against the current wall-clock time. The deadline
/// is taken from the clock, so this promises everything
/// `create_reactdrop` does except the deadline's exact value.
pub fn start_reactdrop(
    id: u64,
    initiator: u64,
    trigger: Trigger,
    amount: Amount,
    channel: u64,
    message: u64,
    duration_secs: i64,
    store: &BalanceStore,
) -> (r: Result<Reactdrop, TransferError>)
    requires
        duration_secs >= 0,
        store.wf(),
    ensures
        r is Ok <==> trigger_valid(trigger) && amount.units >= MIN_TIP_UNITS
            && store.balance_of(initiator) >= amount.units,
        (match r {
            Ok(d) => {
                &&& d.id == id
                &&& d.initiator == initiator
                &&& d.trigger == trigger
                &&& d.amount == amount
                &&& d.channel == channel
                &&& d.message == message
                &&& d.status is Pending
            }
            Err(e) => {
                &&& (e == TransferError::InvalidTrigger <==> !trigger_valid(trigger))
                &&& (e == TransferError::BelowMinimum <==> trigger_valid(trigger)
                    && amount.units < MIN_TIP_UNITS)
                &&& (e == TransferError::InsufficientFunds <==> trigger_valid(trigger)
                    && amount.units >= MIN_TIP_UNITS && store.balance_of(initiator)
                    < amount.units)
            }
        }),
{
    let now = now_timestamp();
    create_reactdrop(id, initiator, trigger, amount, channel, message, now, duration_secs, store)
}

/// Settles a claimed reactdrop. With no participants it expires and
/// nothing moves; otherwise the committed amount is split evenly over
/// the participants through the transfer engine under the reactdrop
/// kind. Any state but `Settling` is refused with `AlreadySettled`. A
/// transfer failure is fatal for the reactdrop: it stays `Settling`,
/// for an operator to look at, and nothing was moved or logged.
pub fn settle_reactdrop(
    rd: &mut Reactdrop,
    participants: Vec<u64>,
    store: &mut BalanceStore,
    ledger: &mut Ledger,
) -> (r: Result<Option<Settlement>, TransferError>)
    requires
        old(store).wf(),
        forall|i: int, j: int|
            0 <= i < j < participants@.len() ==> participants@[i] != participants@[j],
    ensures
        final(store).wf(),
        *final(rd) == (Reactdrop { status: final(rd).status, ..*old(rd) }),
        r is Ok <==> old(rd).status is Settling && (participants@.len() == 0 || (old(
            rd,
        ).amount.units >= MIN_TIP_UNITS && old(store).balance_of(old(rd).initiator) >= old(
            rd,
        ).amount.units)),
        (match r {
            Ok(opt) => {
                &&& old(rd).status is Settling
                &&& (match opt {
                    None => {
                        &&& participants@.len() == 0
                        &&& final(rd).status is Expired
                        &&& final(store)@ == old(store)@
                        &&& final(ledger)@ == old(ledger)@
                    }
                    Some(s) => {
                        let n = participants@.len() as int;
                        let oldlen = old(ledger)@.len() as int;
                        &&& participants@.len() > 0
                        &&& old(rd).amount.units >= MIN_TIP_UNITS
                        &&& old(store).balance_of(old(rd).initiator) >= old(rd).amount.units
                        &&& final(rd).status is Settled
                        &&& s.requested == old(rd).amount
                        &&& s.share.units == old(rd).amount.units as int / n
                        &&& s.moved_total.units == s.share.units * n
                        &&& s.moved_total.units <= old(rd).amount.units
                        &&& forall|x: u64|
                            final(store).balance_of(x) == old(store).balance_of(x) - (if x
                                == old(rd).initiator {
                                s.moved_total.units as int
                            } else {
                                0
                            }) + (if participants@.contains(x) {
                                s.share.units as int
                            } else {
                                0
                            })
                        &&& final(ledger)@.len() == oldlen + n
                        &&& forall|i: int|
                            0 <= i < oldlen ==> final(ledger)@[i] == old(ledger)@[i]
                        &&& forall|i: int|
                            0 <= i < n ==> final(ledger)@[oldlen + i] == (LedgerEntry {
                                event_id: s.event_id,
                                source: old(rd).initiator,
                                destination: participants@[i],
                                amount: s.share,
                                kind: TipKind::Reactdrop,
                                timestamp: s.timestamp,
                            })
                        &&& crate::ledger::entries_units(final(ledger)@.skip(oldlen))
                            == s.moved_total.units
                        &&& crate::balance::units_total(final(store)@)
                            == crate::balance::units_total(old(store)@)
                    }
                })
            }
            Err(e) => {
                &&& final(store)@ == old(store)@
                &&& final(ledger)@ == old(ledger)@
                &&& final(rd).status == old(rd).status
                &&& (e == TransferError::AlreadySettled <==> !(old(rd).status is Settling))
                &&& (old(rd).status is Settling ==> participants@.len() > 0 && (e
                    == TransferError::BelowMinimum <==> old(rd).amount.units < MIN_TIP_UNITS)
                    && (e == TransferError::InsufficientFunds <==> old(rd).amount.units
                    >= MIN_TIP_UNITS && old(store).balance_of(old(rd).initiator) < old(
                    rd,
                ).amount.units))
            }
        }),
{
    match rd.status {
        ReactdropStatus::Settling => {}
        _ => {
            return Err(TransferError::AlreadySettled);
        }
    }
    if participants.len() == 0 {
        rd.status = ReactdropStatus::Expired;
        return Ok(None);
    }
    let intent = TransferIntent {
        source: rd.initiator,
        destinations: participants,
        amount: rd.amount,
        kind: TipKind::Reactdrop,
    };
    match execute_transfer(&intent, store, ledger) {
        Ok(s) => {
            rd.status = ReactdropStatus::Settled;
            Ok(Some(s))
        }
        Err(e) => Err(e),
    }
}

} // verus!
