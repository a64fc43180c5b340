//! The narrow trusted boundary to the outside crates: event-id
//! generation, wall-clock time, and the unicode emoji catalogue.

use vstd::prelude::*;

verus! {

/// Whether a string is a recognized unicode emoji, exactly as the
/// static emoji catalogue of the `emojis` crate decides it.
pub uninterp spec fn is_known_emoji(s: Seq<char>) -> bool;

/// Relies on `emojis::get`: a lookup in a static table, a function of
/// the query string alone.
#[verifier::external_body]
pub(crate) fn unicode_emoji_exists(s: &str) -> (r: bool)
    ensures
        r == is_known_emoji(s@),
{
    emojis::get(s).is_some()
}

/// Relies on `uuid::Uuid::new_v4` and `Uuid::as_u128`: a freshly
/// generated random identifier; nothing is promised of its value.
#[verifier::external_body]
pub(crate) fn new_event_id() -> (r: u128) {
    uuid::Uuid::new_v4().as_u128()
}

/// Relies on `chrono::Utc::now` and `DateTime::timestamp`: the current
/// wall-clock time in whole seconds; nothing is promised of its value.
#[verifier::external_body]
pub(crate) fn now_timestamp() -> (r: i64) {
    chrono::Utc::now().timestamp()
}

} // verus!
