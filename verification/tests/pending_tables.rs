use futures::task::noop_waker_ref;
use std::task::Context;
use zigbee_mac::ieee802154::mac::combinedpendingtable::{CombinedPendingTable, CombinedPendingTableAction};
use zigbee_mac::ieee802154::mac::frame::{Address, FullAddress};
use zigbee_mac::ieee802154::mac::pendingtable::{PendingTable, PendingTableUpdate};
use zigbee_mac::ieee802154::{ExtendedAddress, ShortAddress, PANID};
use zigbee_mac::unique_key::UniqueKey;

fn next_update(t: &mut PendingTable<u16>) -> Option<PendingTableUpdate<u16>> {
    let mut cx = Context::from_waker(noop_waker_ref());
    t.poll_update(&mut cx)
}

/// Writes every slot that has to be written, reporting success, and gives
/// the (index, value) pairs written.
fn flush(t: &mut PendingTable<u16>) -> Vec<(usize, Option<u16>)> {
    let mut written = Vec::new();
    while let Some(update) = next_update(t) {
        written.push((update.index, update.value));
        t.report_update_result(update.key, true);
    }
    written
}

#[test]
fn pending_table_new_writes_every_slot_once() {
    let mut t = PendingTable::<u16>::new(2);
    let first = next_update(&mut t).unwrap();
    assert_eq!((first.index, first.value), (0, None));
    // While a write is under way, nothing else is handed out.
    assert!(next_update(&mut t).is_none());
    // A result under another key is ignored.
    t.report_update_result(UniqueKey::new(), true);
    assert!(next_update(&mut t).is_none());
    t.report_update_result(first.key, true);
    assert_eq!(flush(&mut t), vec![(1, None)]);
    assert!(next_update(&mut t).is_none());
}

#[test]
fn pending_table_insert_and_remove() {
    let mut t = PendingTable::<u16>::new(2);
    flush(&mut t);
    assert!(t.insert(7));
    assert!(!t.insert(7));
    assert!(t.contains(&7));
    assert_eq!(flush(&mut t), vec![(0, Some(7))]);
    assert!(t.insert(8));
    assert_eq!(flush(&mut t), vec![(1, Some(8))]);
    assert!(t.remove(&7));
    assert!(!t.remove(&7));
    assert!(!t.contains(&7));
    assert_eq!(flush(&mut t), vec![(0, None)]);
    // The cleared slot is the first to be taken again.
    t.set(&9, true);
    assert_eq!(flush(&mut t), vec![(0, Some(9))]);
    t.set(&9, false);
    assert_eq!(flush(&mut t), vec![(0, None)]);
}

#[test]
fn pending_table_evicts_least_recently_promoted() {
    let mut t = PendingTable::<u16>::new(1);
    flush(&mut t);
    t.insert(1);
    t.insert(2);
    assert_eq!(flush(&mut t), vec![(0, Some(2))]);
    // Address 1 is still pending, but holds no slot until promoted.
    assert!(t.contains(&1));
    assert!(t.promote(&1));
    assert_eq!(flush(&mut t), vec![(0, Some(1))]);
    assert!(!t.promote(&3));
    assert_eq!(flush(&mut t), vec![]);
}

#[test]
fn pending_table_failed_write_is_retried() {
    let mut t = PendingTable::<u16>::new(1);
    flush(&mut t);
    t.insert(5);
    let update = next_update(&mut t).unwrap();
    assert_eq!((update.index, update.value), (0, Some(5)));
    t.report_update_result(update.key, false);
    assert_eq!(flush(&mut t), vec![(0, Some(5))]);
}

#[test]
fn pending_table_assume_empty_rewrites_held_slots() {
    let mut t = PendingTable::<u16>::new(3);
    flush(&mut t);
    t.insert(4);
    t.insert(6);
    flush(&mut t);
    t.assume_empty();
    assert_eq!(flush(&mut t), vec![(0, Some(4)), (1, Some(6))]);
}

fn poll(t: &mut CombinedPendingTable) -> Option<CombinedPendingTableAction> {
    let mut cx = Context::from_waker(noop_waker_ref());
    t.poll_action(&mut cx)
}

fn initialized() -> CombinedPendingTable {
    let mut t = CombinedPendingTable::new();
    let key = match poll(&mut t) {
        Some(CombinedPendingTableAction::Init(key)) => key,
        other => panic!("unexpected {:?}", other),
    };
    assert_eq!(poll(&mut t), None);
    t.report_init_result(key, true);
    t
}

#[test]
fn combined_table_clears_first() {
    let mut t = CombinedPendingTable::new();
    let key = match poll(&mut t) {
        Some(CombinedPendingTableAction::Init(key)) => key,
        other => panic!("unexpected {:?}", other),
    };
    // A failed clearing is tried again under a new key.
    t.report_init_result(key, false);
    let again = match poll(&mut t) {
        Some(CombinedPendingTableAction::Init(k)) => k,
        other => panic!("unexpected {:?}", other),
    };
    assert_ne!(again, key);
    t.report_init_result(again, true);
    // After a clearing no slot holds an address, so none is written.
    assert_eq!(poll(&mut t), None);
}

#[test]
fn combined_table_routes_addresses() {
    let mut t = initialized();
    let short = FullAddress { pan_id: PANID(0x1234), address: Address::Short(ShortAddress(0x0042)) };
    let extended = FullAddress { pan_id: PANID(0x1234), address: Address::Extended(ExtendedAddress(0xAB)) };
    t.set(&None, true);
    assert_eq!(poll(&mut t), None);
    t.set(&Some(extended), true);
    t.set(&Some(short), true);
    let key = match poll(&mut t) {
        Some(CombinedPendingTableAction::UpdateShort(k, 0, Some((PANID(0x1234), ShortAddress(0x0042))))) => k,
        other => panic!("unexpected {:?}", other),
    };
    t.report_update_result(key, true);
    let key = match poll(&mut t) {
        Some(CombinedPendingTableAction::UpdateExtended(k, 0, Some(ExtendedAddress(0xAB)))) => k,
        other => panic!("unexpected {:?}", other),
    };
    t.report_update_result(key, true);
    assert_eq!(poll(&mut t), None);
    t.set(&Some(short), false);
    match poll(&mut t) {
        Some(CombinedPendingTableAction::UpdateShort(_, 0, None)) => {}
        other => panic!("unexpected {:?}", other),
    }
}
