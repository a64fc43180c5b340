//! Core logic of a custodial tipping ledger: fixed-point amounts, an
//! account balance store with atomic debit/credit, an append-only
//! transaction ledger, a transfer engine that splits a tip evenly over
//! its recipients, a deferred-settlement state machine for reactdrops,
//! and the notification delivery policy.

use vstd::prelude::*;

mod amount;
mod balance;
mod engine;
mod external;
mod ledger;
mod notify;
mod reactdrop;
mod roles;

pub use amount::Amount;
pub use balance::lemma_balance_nonnegative;
pub use balance::BalanceStore;
pub use balance::credited_to;
pub use balance::units_total;
pub use engine::execute_transfer;
pub use engine::intent_validates;
pub use engine::lemma_split_policy;
pub use engine::Settlement;
pub use engine::TransferIntent;
pub use external::is_known_emoji;
pub use ledger::entries_units;
pub use ledger::lemma_uniform_entries_units;
pub use ledger::Ledger;
pub use ledger::LedgerEntry;
pub use ledger::TipKind;
pub use notify::delivery_plan;
pub use notify::spec_delivery_plan;
pub use notify::DeliveryPlan;
pub use notify::NotificationPreference;
pub use reactdrop::after_claim;
pub use reactdrop::claim_succeeds;
pub use reactdrop::create_reactdrop;
pub use reactdrop::duration_seconds;
pub use reactdrop::lemma_claim_at_most_once;
pub use reactdrop::settle_reactdrop;
pub use reactdrop::start_reactdrop;
pub use reactdrop::trigger_valid;
pub use reactdrop::unit_factor;
pub use reactdrop::Hms;
pub use reactdrop::Reactdrop;
pub use reactdrop::ReactdropStatus;
pub use reactdrop::Trigger;
pub use roles::role_recipients;
pub use roles::spec_role_recipients;
pub use roles::RoleMember;

verus! {

/// Largest number of base units the whole store may hold, so that every
/// balance fits the signed 64-bit column a persistence layer would use.
pub const MAX_UNITS: u64 = 9223372036854775807;

/// Smallest tip the transfer engine accepts, in base units.
pub const MIN_TIP_UNITS: u64 = 1;

/// Errors surfaced by validation and settlement.
#[derive(Clone, Copy, PartialEq, Eq, Structural, Debug)]
pub enum TransferError {
    /// The source balance does not cover the requested total.
    InsufficientFunds,
    /// The destination set of a transfer intent is empty.
    InvalidSplit,
    /// The requested amount is under the configured minimum.
    BelowMinimum,
    /// A settlement was attempted on a reactdrop already claimed or done.
    AlreadySettled,
    /// The reactdrop trigger token is not a usable reaction emoji.
    InvalidTrigger,
}

} // verus!
