//! The notification delivery policy: a closed set of recipient
//! preferences, each mapped exhaustively to a fixed combination of
//! delivery channels. Delivery itself is a best-effort concern of the
//! messaging edge and is strictly downstream of settlement.

use vstd::prelude::*;

verus! {

/// A recipient's stored notification preference.
#[derive(Clone, Copy, PartialEq, Eq, Structural, Debug)]
pub enum NotificationPreference {
    /// Public mentioning message and a direct message.
    All,
    /// Public mentioning message only. Also the default when unset.
    ChannelOnly,
    /// Public non-mentioning message and a direct message.
    DMOnly,
    /// Public non-mentioning message only.
    Off,
}

impl Default for NotificationPreference {
    /// An account that never chose behaves like `ChannelOnly`.
    fn default() -> (r: Self)
        ensures
            r == NotificationPreference::ChannelOnly,
    {
        NotificationPreference::ChannelOnly
    }
}

/// How one settled transfer is announced to one recipient. The public
/// ledger-visibility message is never suppressed; only whether it
/// mentions the recipient and whether a direct message goes out vary.
#[derive(Clone, Copy, PartialEq, Eq, Structural, Debug)]
pub struct DeliveryPlan {
    pub public_message: bool,
    pub mention_recipient: bool,
    pub direct_message: bool,
}

/// The fixed preference-to-channels mapping.
pub open spec fn spec_delivery_plan(p: NotificationPreference) -> DeliveryPlan {
    DeliveryPlan {
        public_message: true,
        mention_recipient: p is All || p is ChannelOnly,
        direct_message: p is All || p is DMOnly,
    }
}

/// Resolves a recipient's preference to the channels to use.
pub fn delivery_plan(p: NotificationPreference) -> (r: DeliveryPlan)
    ensures
        r == spec_delivery_plan(p),
        r.public_message,
{
    match p {
        NotificationPreference::All => DeliveryPlan {
            public_message: true,
            mention_recipient: true,
            direct_message: true,
        },
        NotificationPreference::ChannelOnly => DeliveryPlan {
            public_message: true,
            mention_recipient: true,
            direct_message: false,
        },
        NotificationPreference::DMOnly => DeliveryPlan {
            public_message: true,
            mention_recipient: false,
            direct_message: true,
        },
        NotificationPreference::Off => DeliveryPlan {
            public_message: true,
            mention_recipient: false,
            direct_message: false,
        },
    }
}

} // verus!
