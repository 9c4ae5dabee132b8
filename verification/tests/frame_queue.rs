use futures::task::noop_waker_ref;
use std::task::Context;
use std::time::Duration;
use zigbee_mac::ieee802154::mac::frame::{AddressSpecification, Frame, FrameType};
use zigbee_mac::ieee802154::mac::device_queue::Settlement;
use zigbee_mac::ieee802154::mac::frame_queue::{Queue, QueueError, QueueEvent, TimerCommand};
use zigbee_mac::ieee802154::{ShortAddress, PANID};

fn destination() -> AddressSpecification {
    AddressSpecification::Short(PANID(5), ShortAddress(6))
}

fn frame(acknowledge_request: bool, sequence_number: u8) -> Frame {
    Frame {
        frame_pending: false,
        acknowledge_request,
        sequence_number: Some(sequence_number),
        destination: destination(),
        source: AddressSpecification::Short(PANID(5), ShortAddress(0)),
        frame_type: FrameType::Data(vec![1, 2]),
    }
}

fn deliver(settled: Settlement) {
    if let Some((channel, outcome)) = settled {
        let _ = channel.send(outcome);
    }
}

fn poll(q: &mut Queue) -> Option<QueueEvent> {
    let mut cx = Context::from_waker(noop_waker_ref());
    q.poll_event(&mut cx)
}

#[test]
fn queue_sends_to_awake_destination() {
    let mut q = Queue::new();
    let mut receiver = q.enqueue(frame(false, 1), true);
    match poll(&mut q) {
        Some(QueueEvent::OutgoingFrame(d, f)) => {
            assert_eq!(d, destination());
            assert_eq!(f, frame(false, 1));
        }
        other => panic!("unexpected {:?}", other),
    }
    assert!(poll(&mut q).is_none());
    deliver(q.on_send_result(destination(), true));
    assert_eq!(receiver.try_recv(), Ok(Some(Ok(()))));
    match poll(&mut q) {
        Some(QueueEvent::QueueFlushed(d)) => assert_eq!(d, destination()),
        other => panic!("unexpected {:?}", other),
    }
    assert!(poll(&mut q).is_none());
    assert!(q.take_timer_commands().is_empty());
}

#[test]
fn queue_waits_for_data_request_of_sleeping_destination() {
    let mut q = Queue::new();
    let _receiver = q.enqueue(frame(false, 1), false);
    assert!(poll(&mut q).is_none());
    assert_eq!(q.take_timer_commands(), vec![TimerCommand::Start(destination(), Duration::from_secs(10))]);
    assert!(q.on_data_request(destination()));
    assert_eq!(q.take_timer_commands(), vec![TimerCommand::Cancel(destination())]);
    match poll(&mut q) {
        Some(QueueEvent::OutgoingFrame(d, _)) => assert_eq!(d, destination()),
        other => panic!("unexpected {:?}", other),
    }
}

#[test]
fn queue_data_request_timeout() {
    let mut q = Queue::new();
    let mut receiver = q.enqueue(frame(false, 1), false);
    q.take_timer_commands();
    deliver(q.on_timer(destination()));
    assert_eq!(receiver.try_recv(), Ok(Some(Err(QueueError::DataRequestTimeout))));
    // The timer ran out, so there is none to cancel.
    assert!(q.take_timer_commands().is_empty());
    match poll(&mut q) {
        Some(QueueEvent::QueueFlushed(d)) => assert_eq!(d, destination()),
        other => panic!("unexpected {:?}", other),
    }
    assert!(!q.on_data_request(destination()));
}

#[test]
fn queue_acknowledgement_settles_frame() {
    let mut q = Queue::new();
    let mut receiver = q.enqueue(frame(true, 7), true);
    assert!(matches!(poll(&mut q), Some(QueueEvent::OutgoingFrame(_, _))));
    deliver(q.on_send_result(destination(), true));
    assert_eq!(
        q.take_timer_commands(),
        vec![TimerCommand::Start(destination(), Duration::from_millis(250))]
    );
    for settled in q.on_ack(6) {
        deliver(Some(settled));
    }
    assert_eq!(receiver.try_recv(), Ok(None));
    for settled in q.on_ack(7) {
        deliver(Some(settled));
    }
    assert_eq!(receiver.try_recv(), Ok(Some(Ok(()))));
    assert_eq!(q.take_timer_commands(), vec![TimerCommand::Cancel(destination())]);
    assert!(poll(&mut q).is_none());
}

#[test]
fn queue_second_frame_waits_behind_first() {
    let mut q = Queue::new();
    let _first = q.enqueue(frame(false, 1), true);
    let _second = q.enqueue(frame(false, 2), true);
    match poll(&mut q) {
        Some(QueueEvent::OutgoingFrame(_, f)) => assert_eq!(f.sequence_number, Some(1)),
        other => panic!("unexpected {:?}", other),
    }
    assert!(poll(&mut q).is_none());
    deliver(q.on_send_result(destination(), true));
    match poll(&mut q) {
        Some(QueueEvent::OutgoingFrame(_, f)) => assert_eq!(f.sequence_number, Some(2)),
        other => panic!("unexpected {:?}", other),
    }
}
