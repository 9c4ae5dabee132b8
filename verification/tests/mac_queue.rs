use futures::task::noop_waker_ref;
use std::task::Context;
use std::time::Duration;
use zigbee_mac::ieee802154::mac::device_queue::{
    outcome_of, DeviceQueue, DeviceQueueAction, DeviceQueueError, DeviceQueueItem, Settlement,
};
use zigbee_mac::ieee802154::mac::frame::{
    Address, AddressSpecification, AddressingMode, Frame, FrameType, FullAddress,
};
use zigbee_mac::ieee802154::mac::queue::{MacQueue, MacQueueAction, MacQueueEntry};
use zigbee_mac::ieee802154::{ShortAddress, PANID};
use zigbee_mac::saved_waker::SavedWaker;
use zigbee_mac::unique_key::UniqueKey;

/// Sends a settled frame's outcome on its channel; gives the outcome.
fn deliver(settled: Settlement) -> Option<Result<(), DeviceQueueError>> {
    settled.map(|(channel, outcome)| {
        let _ = channel.send(outcome);
        outcome
    })
}

fn destination() -> Option<FullAddress> {
    Some(FullAddress { pan_id: PANID(0x22), address: Address::Short(ShortAddress(7)) })
}

fn entry(indirect: bool, acknowledge_request: bool) -> MacQueueEntry {
    MacQueueEntry {
        key: UniqueKey::new(),
        destination: destination(),
        source_mode: AddressingMode::Short,
        acknowledge_request,
        indirect,
        content: FrameType::Data(vec![1]),
    }
}

fn poll(q: &mut MacQueue) -> Option<MacQueueAction> {
    let mut cx = Context::from_waker(noop_waker_ref());
    q.poll_action(&mut cx)
}

/// Polls until nothing is left to do, reporting every table write as done;
/// gives the keys of the frames handed out to send, and the slots written.
fn drain(q: &mut MacQueue) -> (Vec<UniqueKey>, Vec<(usize, Option<(PANID, ShortAddress)>)>) {
    let mut sent = Vec::new();
    let mut short = Vec::new();
    while let Some(action) = poll(q) {
        match action {
            MacQueueAction::Send(e) => sent.push(e.key),
            MacQueueAction::SetPendingShort(k, i, v) => {
                short.push((i, v));
                q.report_set_pending_short_result(k, true);
            }
            MacQueueAction::SetPendingExtended(k, _, _) => q.report_set_pending_extended_result(k, true),
        }
    }
    (sent, short)
}

#[test]
fn mac_queue_sends_direct_frames_first() {
    let mut q = MacQueue::new();
    let e = entry(false, false);
    let key = e.key;
    assert!(q.insert(e.clone()));
    assert!(!q.insert(e));
    assert!(!q.is_pending_indirect(&destination()));
    match poll(&mut q) {
        Some(MacQueueAction::Send(sent)) => assert_eq!(sent.key, key),
        other => panic!("unexpected {:?}", other),
    }
    // Then the tables, whose slots all start out to be written.
    let (sent, short) = drain(&mut q);
    assert!(sent.is_empty());
    assert_eq!(short.len(), 8);
    assert!(short.iter().all(|(_, v)| v.is_none()));
}

#[test]
fn mac_queue_keeps_indirect_frames_until_asked() {
    let mut q = MacQueue::new();
    drain(&mut q);
    let e = entry(true, false);
    let key = e.key;
    assert!(q.insert(e));
    assert!(q.is_pending_indirect(&destination()));
    let (sent, short) = drain(&mut q);
    assert!(sent.is_empty());
    assert_eq!(short, vec![(0, Some((PANID(0x22), ShortAddress(7))))]);
    assert!(q.promote_pending(&destination()));
    let popped = q.pop_datarequest(&destination()).unwrap();
    assert_eq!(popped.key, key);
    assert!(!q.is_pending_indirect(&destination()));
    assert!(q.pop_datarequest(&destination()).is_none());
    // The frame is no longer queued.
    assert!(!q.purge(key));
}

#[test]
fn mac_queue_purge_drops_frame() {
    let mut q = MacQueue::new();
    drain(&mut q);
    let e = entry(true, false);
    let key = e.key;
    q.insert(e);
    assert!(q.purge(key));
    assert!(!q.purge(key));
    assert!(!q.is_pending_indirect(&destination()));
    assert!(q.pop_datarequest(&destination()).is_none());
}

#[test]
fn mac_queue_unknown_acknowledge_is_ignored() {
    let mut q = MacQueue::new();
    drain(&mut q);
    q.acknowledge_timeout(UniqueKey::new());
    q.acknowledge(UniqueKey::new());
    assert!(poll(&mut q).is_none());
}

#[test]
fn mac_queue_waits_for_acknowledgement() {
    let mut q = MacQueue::new();
    drain(&mut q);
    let first = entry(false, true);
    let second = entry(false, false);
    let first_key = first.key;
    q.insert(first);
    q.insert(second);
    let (sent, _) = drain(&mut q);
    // The second frame waits behind the first one, whose acknowledgement
    // is awaited.
    assert_eq!(sent, vec![first_key]);
}

fn frame(acknowledge_request: bool, sequence_number: u8) -> Frame {
    Frame {
        frame_pending: false,
        acknowledge_request,
        sequence_number: Some(sequence_number),
        destination: AddressSpecification::Short(PANID(1), ShortAddress(2)),
        source: AddressSpecification::Short(PANID(1), ShortAddress(3)),
        frame_type: FrameType::Data(vec![4]),
    }
}

#[test]
fn device_queue_sends_and_settles() {
    let (item, mut receiver) = DeviceQueueItem::new(frame(false, 1), true, None, 0);
    let (q, action) = DeviceQueue::default().enqueue(item);
    match action {
        Some(DeviceQueueAction::StopTimerStartSend(f)) => assert_eq!(f, frame(false, 1)),
        other => panic!("unexpected {:?}", other),
    }
    assert!(!q.is_idle());
    let (q, action, done) = q.on_send_result(true);
    let settled = deliver(done);
    assert!(matches!(action, Some(DeviceQueueAction::StopTimer())));
    assert_eq!(settled, Some(Ok(())));
    assert!(q.is_idle());
    assert_eq!(receiver.try_recv(), Ok(Some(Ok(()))));
}

#[test]
fn device_queue_waits_for_data_request() {
    let (item, mut receiver) = DeviceQueueItem::new(frame(false, 1), false, Some(Duration::from_secs(2)), 0);
    let (q, action) = DeviceQueue::Idle.enqueue(item);
    match action {
        Some(DeviceQueueAction::StartTimer(d)) => assert_eq!(d, Duration::from_secs(2)),
        other => panic!("unexpected {:?}", other),
    }
    // A second frame waits behind the first.
    let (second, mut second_receiver) = DeviceQueueItem::new(frame(false, 2), true, None, 0);
    let (q, action) = q.enqueue(second);
    assert!(action.is_none());
    let (q, action, done) = q.on_timer();
    let settled = deliver(done);
    assert_eq!(settled, Some(Err(DeviceQueueError::DataRequestTimeout)));
    assert_eq!(receiver.try_recv(), Ok(Some(Err(DeviceQueueError::DataRequestTimeout))));
    match action {
        Some(DeviceQueueAction::StopTimerStartSend(f)) => assert_eq!(f, frame(false, 2)),
        other => panic!("unexpected {:?}", other),
    }
    let (q, _, done) = q.on_send_result(true);
    let _ = deliver(done);
    assert!(q.is_idle());
    assert_eq!(second_receiver.try_recv(), Ok(Some(Ok(()))));
}

#[test]
fn device_queue_data_request_starts_send() {
    let (item, _receiver) = DeviceQueueItem::new(frame(false, 1), false, None, 0);
    let (q, action) = DeviceQueue::Idle.enqueue(item);
    assert!(action.is_none());
    let (q, action) = q.on_data_request();
    assert!(matches!(action, Some(DeviceQueueAction::StopTimerStartSend(_))));
    // A second data request changes nothing while sending.
    let (_q, action) = q.on_data_request();
    assert!(action.is_none());
}

#[test]
fn device_queue_waits_for_acknowledgement() {
    let (item, mut receiver) = DeviceQueueItem::new(frame(true, 9), true, None, 0);
    let (q, _) = DeviceQueue::Idle.enqueue(item);
    let (q, action, done) = q.on_send_result(true);
    let _ = deliver(done);
    match action {
        Some(DeviceQueueAction::StartTimer(d)) => assert_eq!(d, Duration::from_millis(250)),
        other => panic!("unexpected {:?}", other),
    }
    let (q, action, done) = q.on_ack(8);
    let settled = deliver(done);
    assert!(action.is_none());
    assert_eq!(settled, None);
    assert_eq!(receiver.try_recv(), Ok(None));
    let (q, action, done) = q.on_ack(9);
    let settled = deliver(done);
    assert!(matches!(action, Some(DeviceQueueAction::StopTimer())));
    assert_eq!(settled, Some(Ok(())));
    assert!(q.is_idle());
    assert_eq!(receiver.try_recv(), Ok(Some(Ok(()))));
}

#[test]
fn device_queue_early_acknowledgement() {
    let (item, mut receiver) = DeviceQueueItem::new(frame(true, 9), true, None, 0);
    let (q, _) = DeviceQueue::Idle.enqueue(item);
    let (q, _, done) = q.on_ack(9);
    let _ = deliver(done);
    let (q, action, done) = q.on_send_result(true);
    let _ = deliver(done);
    assert!(matches!(action, Some(DeviceQueueAction::StopTimer())));
    assert!(q.is_idle());
    assert_eq!(receiver.try_recv(), Ok(Some(Ok(()))));
}

#[test]
fn device_queue_retries_then_gives_up() {
    let (item, mut receiver) = DeviceQueueItem::new(frame(false, 1), true, None, 1);
    let (q, _) = DeviceQueue::Idle.enqueue(item);
    let (q, action, done) = q.on_send_result(false);
    let settled = deliver(done);
    assert!(matches!(action, Some(DeviceQueueAction::StopTimerStartSend(_))));
    assert_eq!(settled, None);
    assert_eq!(receiver.try_recv(), Ok(None));
    let (q, action, done) = q.on_send_result(false);
    let settled = deliver(done);
    assert!(matches!(action, Some(DeviceQueueAction::StopTimer())));
    assert_eq!(settled, Some(Err(DeviceQueueError::RetryLimitReached)));
    assert!(q.is_idle());
    assert_eq!(receiver.try_recv(), Ok(Some(Err(DeviceQueueError::RetryLimitReached))));
}

#[test]
fn device_queue_ack_timeout_retries() {
    let (item, mut receiver) = DeviceQueueItem::new(frame(true, 3), true, None, 0);
    let (q, _) = DeviceQueue::Idle.enqueue(item);
    let (q, _, done) = q.on_send_result(true);
    let _ = deliver(done);
    let (q, action, done) = q.on_timer();
    let _ = deliver(done);
    assert!(matches!(action, Some(DeviceQueueAction::StopTimer())));
    assert!(q.is_idle());
    assert_eq!(receiver.try_recv(), Ok(Some(Err(DeviceQueueError::RetryLimitReached))));
}

#[test]
fn saved_waker_set_and_wake() {
    let mut w = SavedWaker::new();
    w.wake();
    let mut cx = Context::from_waker(noop_waker_ref());
    w.set(&mut cx);
    w.wake();
}

#[test]
fn device_queue_dropped_channel_reads_as_channel_dropped() {
    let (item, mut receiver) = DeviceQueueItem::new(frame(false, 1), true, None, 0);
    let (q, _) = DeviceQueue::Idle.enqueue(item);
    let (_q, _, done) = q.on_send_result(true);
    // The settlement is dropped unsent.
    drop(done);
    assert_eq!(outcome_of(futures::executor::block_on(&mut receiver)), Err(DeviceQueueError::ChannelDropped));
}

#[test]
fn device_queue_retries_zero_means_one_try() {
    let (item, mut receiver) = DeviceQueueItem::new(frame(false, 1), true, None, 0);
    let (q, _) = DeviceQueue::Idle.enqueue(item);
    let (q, action, done) = q.on_send_result(false);
    assert!(matches!(action, Some(DeviceQueueAction::StopTimer())));
    assert_eq!(deliver(done), Some(Err(DeviceQueueError::RetryLimitReached)));
    assert!(q.is_idle());
    assert_eq!(receiver.try_recv(), Ok(Some(Err(DeviceQueueError::RetryLimitReached))));
}
