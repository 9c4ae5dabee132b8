use zigbee_mac::ieee802154::mac::data::DataRequest;
use zigbee_mac::ieee802154::mac::devicequeue::{DeviceQueue, DeviceQueueAction, DeviceQueueError};
use zigbee_mac::ieee802154::mac::frame::{
    Address, AddressSpecification, AddressingMode, FrameType, FullAddress,
};
use zigbee_mac::ieee802154::mac::mru_address_set::{MRUAddressSet, MRUAddressSetAction};
use zigbee_mac::ieee802154::pib::PIB;
use zigbee_mac::ieee802154::{ExtendedAddress, ShortAddress, PANID};
use zigbee_mac::tokenmap::TokenMap;
use zigbee_mac::unique_key::UniqueKey;
use zigbee_mac::waker_store::WakerStore;

fn pib() -> PIB {
    let mut p = PIB::new(ExtendedAddress(0x0102), 11, 20);
    p.mac_short_address = ShortAddress(0);
    p.mac_pan_id = PANID(0x7698);
    p.mac_dsn = 40;
    p
}

fn request(indirect: bool) -> DataRequest {
    DataRequest {
        key: UniqueKey::new(),
        destination: Some(FullAddress { pan_id: PANID(0x7698), address: Address::Short(ShortAddress(5)) }),
        source_mode: AddressingMode::Short,
        acknowledge_request: true,
        indirect,
        content: FrameType::Data(vec![1, 2, 3]),
    }
}

#[test]
fn device_queue_direct_frame() {
    let mut p = pib();
    let mut q = DeviceQueue::new();
    let req = request(false);
    let key = req.key;
    assert!(q.insert(&p, req));
    assert_eq!(q.poll_next_action(&mut p, false, None), Some(DeviceQueueAction::SetPending(false)));
    let send_key = match q.poll_next_action(&mut p, false, None) {
        Some(DeviceQueueAction::SendFrame(k, frame)) => {
            assert_eq!(frame.sequence_number, Some(40));
            assert!(frame.acknowledge_request);
            assert_eq!(frame.destination, AddressSpecification::Short(PANID(0x7698), ShortAddress(5)));
            assert_eq!(frame.source, AddressSpecification::Short(PANID(0x7698), ShortAddress(0)));
            assert_eq!(frame.frame_type, FrameType::Data(vec![1, 2, 3]));
            k
        }
        other => panic!("unexpected {:?}", other),
    };
    assert_eq!(p.mac_dsn, 41);
    // Nothing to do while the frame is being sent.
    assert_eq!(q.poll_next_action(&mut p, false, None), None);
    // A result for another key is ignored.
    q.process_send_result(UniqueKey::new(), true);
    assert_eq!(q.poll_next_action(&mut p, false, None), None);
    q.process_send_result(send_key, true);
    assert_eq!(q.poll_next_action(&mut p, false, None), Some(DeviceQueueAction::ReportResult(key, Ok(vec![]))));
    assert_eq!(q.poll_next_action(&mut p, false, None), Some(DeviceQueueAction::Empty()));
}

#[test]
fn device_queue_retries_then_fails() {
    let mut p = pib();
    p.mac_max_frame_retries = 1;
    let mut q = DeviceQueue::new();
    let req = request(false);
    let key = req.key;
    assert!(q.insert(&p, req));
    assert_eq!(q.poll_next_action(&mut p, false, None), Some(DeviceQueueAction::SetPending(false)));
    for attempt in 0..2 {
        let send_key = match q.poll_next_action(&mut p, false, None) {
            Some(DeviceQueueAction::SendFrame(k, _)) => k,
            other => panic!("unexpected {:?} at attempt {}", other, attempt),
        };
        q.process_send_result(send_key, false);
    }
    assert_eq!(
        q.poll_next_action(&mut p, false, None),
        Some(DeviceQueueAction::ReportResult(key, Err(DeviceQueueError::SendFailure)))
    );
}

#[test]
fn device_queue_indirect_waits_for_datarequest() {
    let mut p = pib();
    let mut q = DeviceQueue::new();
    let req = request(true);
    let key = req.key;
    assert!(q.insert(&p, req));
    // A second insert with the same key is refused.
    let mut dup = request(true);
    dup.key = key;
    assert!(!q.insert(&p, dup));
    assert_eq!(q.poll_next_action(&mut p, false, None), Some(DeviceQueueAction::SetPending(true)));
    assert_eq!(q.poll_next_action(&mut p, false, None), None);
    q.process_datarequest();
    assert!(matches!(q.poll_next_action(&mut p, false, None), Some(DeviceQueueAction::SendFrame(_, _))));
    // The transaction time runs out.
    assert_eq!(
        q.poll_next_action(&mut p, false, Some(0)),
        Some(DeviceQueueAction::ReportResult(key, Err(DeviceQueueError::TransactionExpired)))
    );
    assert_eq!(q.poll_next_action(&mut p, false, None), Some(DeviceQueueAction::SetPending(false)));
    assert_eq!(q.poll_next_action(&mut p, false, None), Some(DeviceQueueAction::Empty()));
}

#[test]
fn token_map_roundtrip() {
    let mut m: TokenMap<&str> = TokenMap::new();
    let a = m.insert("a");
    let b = m.insert("b");
    assert_eq!(m.remove(b), Some("b"));
    assert_eq!(m.remove(a), Some("a"));
}

#[test]
fn waker_store_holds_one_waker() {
    let waker = futures::task::noop_waker();
    let mut store = WakerStore::new();
    assert!(store.take().is_none());
    store.register(&waker);
    assert!(store.take().is_some());
    assert!(store.take().is_none());
    store.register(&waker);
    store.wake();
    assert!(store.take().is_none());
    let mut cx = std::task::Context::from_waker(&waker);
    let p: std::task::Poll<u8> = store.pend(&mut cx);
    assert!(p.is_pending());
    assert!(store.take().is_some());
}

#[test]
fn mru_address_set_splits_by_kind() {
    let mut set = MRUAddressSet::new(1, 1);
    let short: AddressSpecification = (PANID(1), ShortAddress(2)).into();
    let ext: AddressSpecification = (PANID(1), ExtendedAddress(3)).into();
    assert_eq!(set.insert(&AddressSpecification::NotPresent), MRUAddressSetAction::Unchanged);
    assert_eq!(set.insert(&short), MRUAddressSetAction::SetShortSlot(0, Some((PANID(1), ShortAddress(2)))));
    assert_eq!(set.insert(&ext), MRUAddressSetAction::SetExtendedSlot(0, Some(ExtendedAddress(3))));
    assert!(set.contains(&short));
    assert!(!set.contains(&AddressSpecification::NotPresent));
    assert_eq!(set.len(), 2);
    assert_eq!(set.remove(&ext), MRUAddressSetAction::SetExtendedSlot(0, None));
    assert_eq!(set.len(), 1);
}
