use tipbot_core::Amount;
use tipbot_core::BalanceStore;
use tipbot_core::Hms;
use tipbot_core::Ledger;
use tipbot_core::ReactdropStatus;
use tipbot_core::TipKind;
use tipbot_core::TransferError;
use tipbot_core::Trigger;
use tipbot_core::create_reactdrop;
use tipbot_core::duration_seconds;
use tipbot_core::settle_reactdrop;
use tipbot_core::start_reactdrop;

const PARTY_EMOJI: &str = "\u{1F389}";

fn funded_store(account: u64, units: u64) -> BalanceStore {
    let mut store = BalanceStore::new();
    assert!(store.deposit(account, units));
    store
}

fn pending_drop(
    store: &BalanceStore,
    amount_units: u64,
    now: i64,
    duration: i64,
) -> tipbot_core::Reactdrop {
    create_reactdrop(
        7,
        1,
        Trigger::Unicode(String::from(PARTY_EMOJI)),
        Amount::from_units(amount_units),
        100,
        200,
        now,
        duration,
        store,
    )
    .unwrap()
}

#[test]
fn reactdrop_settles_exactly_once() {
    let mut store = funded_store(1, 100);
    let mut ledger = Ledger::new();
    let mut drop = pending_drop(&store, 12, 1_000, 60);
    assert_eq!(drop.status, ReactdropStatus::Pending);
    assert_eq!(drop.deadline, 1_060);

    // past the deadline, the first sweep worker wins the claim
    assert!(drop.claim_due(2_000));
    assert_eq!(drop.status, ReactdropStatus::Settling);
    // a concurrent sweeper loses the race silently
    assert!(!drop.claim_due(2_000));

    let s = settle_reactdrop(&mut drop, vec![2, 3, 4, 5], &mut store, &mut ledger)
        .unwrap()
        .unwrap();
    assert_eq!(drop.status, ReactdropStatus::Settled);
    assert_eq!(s.share.units, 3);
    assert_eq!(s.moved_total.units, 12);
    assert_eq!(store.get_balance(1), 88);
    for account in 2..=5 {
        assert_eq!(store.get_balance(account), 3);
    }
    assert_eq!(ledger.len(), 4);
    for i in 0..4 {
        let row = ledger.entry_at(i);
        assert_eq!(row.event_id, s.event_id);
        assert_eq!(row.kind, TipKind::Reactdrop);
        assert_eq!(row.amount.units, 3);
    }

    // any further settlement attempt is refused
    assert!(!drop.claim_due(3_000));
    let again = settle_reactdrop(&mut drop, vec![2, 3], &mut store, &mut ledger);
    assert_eq!(again.unwrap_err(), TransferError::AlreadySettled);
    assert_eq!(store.get_balance(1), 88);
    assert_eq!(ledger.len(), 4);
}

#[test]
fn reactdrop_with_no_participants_expires() {
    let mut store = funded_store(1, 100);
    let mut ledger = Ledger::new();
    let mut drop = pending_drop(&store, 12, 1_000, 60);
    assert!(drop.claim_due(5_000));
    let outcome = settle_reactdrop(&mut drop, vec![], &mut store, &mut ledger).unwrap();
    assert!(outcome.is_none());
    assert_eq!(drop.status, ReactdropStatus::Expired);
    assert_eq!(store.get_balance(1), 100);
    assert_eq!(ledger.len(), 0);
}

#[test]
fn claim_before_deadline_fails() {
    let store = funded_store(1, 100);
    let mut drop = pending_drop(&store, 12, 1_000, 60);
    assert!(!drop.claim_due(1_059));
    assert_eq!(drop.status, ReactdropStatus::Pending);
    assert!(drop.claim_due(1_060));
}

#[test]
fn settling_an_unclaimed_reactdrop_is_refused() {
    let mut store = funded_store(1, 100);
    let mut ledger = Ledger::new();
    let mut drop = pending_drop(&store, 12, 1_000, 60);
    let r = settle_reactdrop(&mut drop, vec![2], &mut store, &mut ledger);
    assert_eq!(r.unwrap_err(), TransferError::AlreadySettled);
    assert_eq!(drop.status, ReactdropStatus::Pending);
    assert_eq!(store.get_balance(1), 100);
}

#[test]
fn settlement_failure_is_fatal_and_leaves_settling() {
    let mut store = funded_store(1, 100);
    let mut ledger = Ledger::new();
    let mut drop = pending_drop(&store, 12, 1_000, 0);
    // funds were only validated at creation, not reserved: the
    // initiator spends most of the balance before the deadline
    assert!(store.try_debit_and_credit(1, &vec![(9, 95)]).is_ok());
    assert!(drop.claim_due(1_000));
    let r = settle_reactdrop(&mut drop, vec![2, 3], &mut store, &mut ledger);
    assert_eq!(r.unwrap_err(), TransferError::InsufficientFunds);
    assert_eq!(drop.status, ReactdropStatus::Settling);
    assert_eq!(store.get_balance(1), 5);
    assert_eq!(ledger.len(), 0);
}

#[test]
fn reactdrop_needs_funds_at_creation() {
    let store = funded_store(1, 5);
    let r = create_reactdrop(
        7,
        1,
        Trigger::Unicode(String::from(PARTY_EMOJI)),
        Amount::from_units(12),
        100,
        200,
        1_000,
        60,
        &store,
    );
    assert_eq!(r.unwrap_err(), TransferError::InsufficientFunds);
}

#[test]
fn unknown_trigger_token_is_refused() {
    let store = funded_store(1, 100);
    let r = create_reactdrop(
        7,
        1,
        Trigger::Unicode(String::from("definitely not an emoji")),
        Amount::from_units(12),
        100,
        200,
        1_000,
        60,
        &store,
    );
    assert_eq!(r.unwrap_err(), TransferError::InvalidTrigger);
}

#[test]
fn custom_emoji_must_be_in_the_guild() {
    let store = funded_store(1, 100);
    let r = create_reactdrop(
        7,
        1,
        Trigger::Custom { emoji_id: 99, in_guild: false },
        Amount::from_units(12),
        100,
        200,
        1_000,
        60,
        &store,
    );
    assert_eq!(r.unwrap_err(), TransferError::InvalidTrigger);
    let ok = create_reactdrop(
        7,
        1,
        Trigger::Custom { emoji_id: 99, in_guild: true },
        Amount::from_units(12),
        100,
        200,
        1_000,
        60,
        &store,
    );
    assert!(ok.is_ok());
}

#[test]
fn reactdrop_below_minimum_is_refused() {
    let store = funded_store(1, 100);
    let r = create_reactdrop(
        7,
        1,
        Trigger::Unicode(String::from(PARTY_EMOJI)),
        Amount::from_units(0),
        100,
        200,
        1_000,
        60,
        &store,
    );
    assert_eq!(r.unwrap_err(), TransferError::BelowMinimum);
}

#[test]
fn start_reactdrop_uses_the_wall_clock() {
    let store = funded_store(1, 100);
    let drop = start_reactdrop(
        7,
        1,
        Trigger::Unicode(String::from(PARTY_EMOJI)),
        Amount::from_units(12),
        100,
        200,
        3_600,
        &store,
    )
    .unwrap();
    assert_eq!(drop.status, ReactdropStatus::Pending);
    // an hour from a real clock reading lands far past 2001
    assert!(drop.deadline > 1_000_000_000);
}

#[test]
fn durations_convert_to_seconds() {
    assert_eq!(duration_seconds(2, Hms::Hours), Some(7_200));
    assert_eq!(duration_seconds(90, Hms::Minutes), Some(5_400));
    assert_eq!(duration_seconds(0, Hms::Hours), Some(0));
    assert_eq!(duration_seconds(i64::MAX / 3600 + 1, Hms::Hours), None);
    assert_eq!(duration_seconds(i64::MAX / 60 + 1, Hms::Minutes), None);
}

#[test]
fn deadline_saturates_at_the_time_horizon() {
    let store = funded_store(1, 100);
    let drop = pending_drop(&store, 12, i64::MAX - 10, 60);
    assert_eq!(drop.deadline, i64::MAX);
}
