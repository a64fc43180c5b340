use tipbot_core::Amount;
use tipbot_core::BalanceStore;
use tipbot_core::Ledger;
use tipbot_core::TipKind;
use tipbot_core::TransferError;
use tipbot_core::TransferIntent;
use tipbot_core::execute_transfer;
use tipbot_core::MAX_UNITS;

fn funded_store(account: u64, units: u64) -> BalanceStore {
    let mut store = BalanceStore::new();
    assert!(store.deposit(account, units));
    store
}

#[test]
fn direct_tip_moves_whole_amount() {
    let mut store = funded_store(1, 100);
    let mut ledger = Ledger::new();
    let intent = TransferIntent {
        source: 1,
        destinations: vec![2],
        amount: Amount::from_units(30),
        kind: TipKind::Direct,
    };
    let s = execute_transfer(&intent, &mut store, &mut ledger).unwrap();
    assert_eq!(store.get_balance(1), 70);
    assert_eq!(store.get_balance(2), 30);
    assert_eq!(s.share.units, 30);
    assert_eq!(s.moved_total.units, 30);
    assert_eq!(ledger.len(), 1);
    let row = ledger.entry_at(0);
    assert_eq!(row.source, 1);
    assert_eq!(row.destination, 2);
    assert_eq!(row.amount.units, 30);
    assert_eq!(row.kind, TipKind::Direct);
    assert_eq!(row.event_id, s.event_id);
}

#[test]
fn role_tip_splits_evenly_and_remainder_stays() {
    let mut store = funded_store(1, 100);
    let mut ledger = Ledger::new();
    let intent = TransferIntent {
        source: 1,
        destinations: vec![2, 3, 4],
        amount: Amount::from_units(10),
        kind: TipKind::Role,
    };
    let s = execute_transfer(&intent, &mut store, &mut ledger).unwrap();
    assert_eq!(s.share.units, 3);
    assert_eq!(s.moved_total.units, 9);
    assert_eq!(s.requested.units, 10);
    // the sender is debited the moved total, not the requested total
    assert_eq!(store.get_balance(1), 91);
    assert_eq!(store.get_balance(2), 3);
    assert_eq!(store.get_balance(3), 3);
    assert_eq!(store.get_balance(4), 3);
    assert_eq!(ledger.len(), 3);
    let mut amount_sum = 0;
    for i in 0..3 {
        let row = ledger.entry_at(i);
        assert_eq!(row.event_id, s.event_id);
        assert_eq!(row.destination, [2, 3, 4][i]);
        amount_sum += row.amount.units;
    }
    assert_eq!(amount_sum, s.moved_total.units);
}

#[test]
fn insufficient_funds_changes_nothing() {
    let mut store = funded_store(1, 5);
    let mut ledger = Ledger::new();
    let intent = TransferIntent {
        source: 1,
        destinations: vec![2],
        amount: Amount::from_units(10),
        kind: TipKind::Direct,
    };
    let r = execute_transfer(&intent, &mut store, &mut ledger);
    assert_eq!(r.unwrap_err(), TransferError::InsufficientFunds);
    assert_eq!(store.get_balance(1), 5);
    assert_eq!(store.get_balance(2), 0);
    assert_eq!(ledger.len(), 0);
}

#[test]
fn empty_destination_set_is_invalid_split() {
    let mut store = funded_store(1, 100);
    let mut ledger = Ledger::new();
    let intent = TransferIntent {
        source: 1,
        destinations: vec![],
        amount: Amount::from_units(10),
        kind: TipKind::Direct,
    };
    let r = execute_transfer(&intent, &mut store, &mut ledger);
    assert_eq!(r.unwrap_err(), TransferError::InvalidSplit);
    assert_eq!(store.get_balance(1), 100);
    assert_eq!(ledger.len(), 0);
}

#[test]
fn zero_amount_is_below_minimum() {
    let mut store = funded_store(1, 100);
    let mut ledger = Ledger::new();
    let intent = TransferIntent {
        source: 1,
        destinations: vec![2],
        amount: Amount::from_units(0),
        kind: TipKind::Direct,
    };
    let r = execute_transfer(&intent, &mut store, &mut ledger);
    assert_eq!(r.unwrap_err(), TransferError::BelowMinimum);
    assert_eq!(store.get_balance(1), 100);
    assert_eq!(ledger.len(), 0);
}

#[test]
fn tipping_yourself_within_a_role_keeps_the_share() {
    let mut store = funded_store(1, 100);
    let mut ledger = Ledger::new();
    let intent = TransferIntent {
        source: 1,
        destinations: vec![1, 2],
        amount: Amount::from_units(10),
        kind: TipKind::Role,
    };
    let s = execute_transfer(&intent, &mut store, &mut ledger).unwrap();
    assert_eq!(s.share.units, 5);
    // debited 10, credited back its own share of 5
    assert_eq!(store.get_balance(1), 95);
    assert_eq!(store.get_balance(2), 5);
}

#[test]
fn event_ids_are_fresh_per_transfer() {
    let mut store = funded_store(1, 100);
    let mut ledger = Ledger::new();
    let intent = TransferIntent {
        source: 1,
        destinations: vec![2],
        amount: Amount::from_units(10),
        kind: TipKind::Direct,
    };
    let a = execute_transfer(&intent, &mut store, &mut ledger).unwrap();
    let intent = TransferIntent {
        source: 1,
        destinations: vec![2],
        amount: Amount::from_units(10),
        kind: TipKind::Direct,
    };
    let b = execute_transfer(&intent, &mut store, &mut ledger).unwrap();
    assert_ne!(a.event_id, b.event_id);
}

#[test]
fn balances_stay_non_negative_over_many_transfers() {
    let mut store = funded_store(1, 17);
    let mut ledger = Ledger::new();
    for round in 0..10 {
        let intent = TransferIntent {
            source: (round % 3) + 1,
            destinations: vec![((round + 1) % 3) + 1],
            amount: Amount::from_units(7),
            kind: TipKind::Direct,
        };
        let _ = execute_transfer(&intent, &mut store, &mut ledger);
        for account in 1..=3 {
            // u64 cannot go negative; what matters is no wrap-around
            assert!(store.get_balance(account) <= 17);
        }
    }
}

#[test]
fn unknown_account_reads_zero() {
    let store = BalanceStore::new();
    assert_eq!(store.get_balance(42), 0);
}

#[test]
fn deposit_past_capacity_is_refused() {
    let mut store = BalanceStore::new();
    assert!(store.deposit(1, MAX_UNITS));
    assert!(!store.deposit(2, 1));
    assert_eq!(store.get_balance(1), MAX_UNITS);
    assert_eq!(store.get_balance(2), 0);
}

#[test]
fn store_debit_and_credit_is_all_or_nothing() {
    let mut store = funded_store(1, 50);
    assert!(store.try_debit_and_credit(1, &vec![(2, 30), (3, 20)]).is_ok());
    assert_eq!(store.get_balance(1), 0);
    assert_eq!(store.get_balance(2), 30);
    assert_eq!(store.get_balance(3), 20);
    let r = store.try_debit_and_credit(2, &vec![(3, 25), (4, 10)]);
    assert_eq!(r.unwrap_err(), TransferError::InsufficientFunds);
    assert_eq!(store.get_balance(2), 30);
    assert_eq!(store.get_balance(3), 20);
    assert_eq!(store.get_balance(4), 0);
}

#[test]
fn amount_arithmetic_is_exact() {
    let a = Amount::from_units(10);
    assert_eq!(a.checked_div(3).unwrap().units, 3);
    assert!(a.checked_div(0).is_none());
    assert_eq!(a.checked_mul(4).unwrap().units, 40);
    assert!(Amount::from_units(u64::MAX).checked_mul(2).is_none());
    assert_eq!(a.checked_add(Amount::from_units(5)).unwrap().units, 15);
    assert!(Amount::from_units(u64::MAX).checked_add(Amount::from_units(1)).is_none());
    assert_eq!(a.checked_sub(Amount::from_units(4)).unwrap().units, 6);
    assert!(a.checked_sub(Amount::from_units(11)).is_none());
    assert!(Amount::zero().is_zero());
    assert_eq!(a.as_units(), 10);
}
