use futures::task::noop_waker_ref;
use std::task::Context;
use zigbee_mac::ieee802154::mac::commands::Command;
use zigbee_mac::ieee802154::mac::data::{DataRequest, DataService, DataServiceAction};
use zigbee_mac::ieee802154::mac::devicequeue::DeviceQueueError;
use zigbee_mac::ieee802154::mac::frame::{
    Address, AddressSpecification, AddressingMode, Frame, FrameType, FullAddress,
};
use zigbee_mac::ieee802154::mac::management::ManagementService;
use zigbee_mac::ieee802154::pib::{PIBProperty, PIBValue, PIB};
use zigbee_mac::ieee802154::services::mlme;
use zigbee_mac::ieee802154::{ExtendedAddress, ShortAddress, PANID};
use zigbee_mac::unique_key::UniqueKey;

const PAN: PANID = PANID(0x7698);

fn pib() -> PIB {
    let mut p = PIB::new(ExtendedAddress(0x0102), 11, 20);
    p.mac_short_address = ShortAddress(0);
    p.mac_pan_id = PAN;
    p.mac_dsn = 10;
    p
}

fn device() -> FullAddress {
    FullAddress { pan_id: PAN, address: Address::Short(ShortAddress(5)) }
}

fn request(indirect: bool) -> DataRequest {
    DataRequest {
        key: UniqueKey::new(),
        destination: Some(device()),
        source_mode: AddressingMode::Short,
        acknowledge_request: false,
        indirect,
        content: FrameType::Data(vec![9, 8]),
    }
}

fn poll(d: &mut DataService, p: &mut PIB, expired: &Vec<UniqueKey>) -> Option<DataServiceAction> {
    let mut cx = Context::from_waker(noop_waker_ref());
    d.poll_action(p, expired, &Vec::new(), &mut cx)
}

/// A service whose pending tables have been cleared.
fn ready(p: &mut PIB) -> DataService {
    let mut d = DataService::new();
    let key = match poll(&mut d, p, &Vec::new()) {
        Some(DataServiceAction::InitPendingTable(k)) => k,
        other => panic!("unexpected {:?}", other),
    };
    d.process_init_pending_table_result(key, true);
    assert_eq!(poll(&mut d, p, &Vec::new()), None);
    d
}

#[test]
fn data_service_sends_direct_frame() {
    let mut p = pib();
    let mut d = ready(&mut p);
    let req = request(false);
    let key = req.key;
    d.insert(&p, req);
    let send_key = match poll(&mut d, &mut p, &Vec::new()) {
        Some(DataServiceAction::SendFrame(k, frame)) => {
            assert_eq!(frame.sequence_number, Some(10));
            assert_eq!(frame.destination, AddressSpecification::Short(PAN, ShortAddress(5)));
            assert_eq!(frame.source, AddressSpecification::Short(PAN, ShortAddress(0)));
            assert_eq!(frame.frame_type, FrameType::Data(vec![9, 8]));
            k
        }
        other => panic!("unexpected {:?}", other),
    };
    assert_eq!(p.mac_dsn, 11);
    assert_eq!(poll(&mut d, &mut p, &Vec::new()), None);
    d.process_send_result(send_key, true);
    assert_eq!(
        poll(&mut d, &mut p, &Vec::new()),
        Some(DataServiceAction::ReportResult(key, Ok(vec![])))
    );
    // The queue is now empty and discarded.
    assert_eq!(poll(&mut d, &mut p, &Vec::new()), None);
}

#[test]
fn data_service_indirect_frame_waits_for_data_request() {
    let mut p = pib();
    let mut d = ready(&mut p);
    let req = request(true);
    let key = req.key;
    d.insert(&p, req);
    // The destination is marked as having data pending in the radio.
    let table_key = match poll(&mut d, &mut p, &Vec::new()) {
        Some(DataServiceAction::SetPendingShort(k, 0, Some((PAN, ShortAddress(5))))) => k,
        other => panic!("unexpected {:?}", other),
    };
    d.process_set_pending_result(table_key, true);
    assert_eq!(poll(&mut d, &mut p, &Vec::new()), None);
    // A data request from the device, addressed to this one.
    let data_request = Frame {
        frame_pending: false,
        acknowledge_request: true,
        sequence_number: Some(3),
        destination: AddressSpecification::Short(PAN, ShortAddress(0)),
        source: AddressSpecification::Short(PAN, ShortAddress(5)),
        frame_type: FrameType::Command(Command::DataRequest()),
    };
    d.process_frame(&p, &data_request);
    let send_key = match poll(&mut d, &mut p, &Vec::new()) {
        Some(DataServiceAction::SendFrame(k, _)) => k,
        other => panic!("unexpected {:?}", other),
    };
    d.process_send_result(send_key, true);
    assert_eq!(
        poll(&mut d, &mut p, &Vec::new()),
        Some(DataServiceAction::ReportResult(key, Ok(vec![])))
    );
    // The pending mark is taken away again.
    match poll(&mut d, &mut p, &Vec::new()) {
        Some(DataServiceAction::SetPendingShort(_, 0, None)) => {}
        other => panic!("unexpected {:?}", other),
    }
}

#[test]
fn data_service_ignores_data_request_for_others() {
    let mut p = pib();
    let mut d = ready(&mut p);
    d.insert(&p, request(true));
    let table_key = match poll(&mut d, &mut p, &Vec::new()) {
        Some(DataServiceAction::SetPendingShort(k, _, _)) => k,
        other => panic!("unexpected {:?}", other),
    };
    d.process_set_pending_result(table_key, true);
    let data_request = Frame {
        frame_pending: false,
        acknowledge_request: true,
        sequence_number: Some(3),
        destination: AddressSpecification::Short(PAN, ShortAddress(77)),
        source: AddressSpecification::Short(PAN, ShortAddress(5)),
        frame_type: FrameType::Command(Command::DataRequest()),
    };
    d.process_frame(&p, &data_request);
    assert_eq!(poll(&mut d, &mut p, &Vec::new()), None);
}

#[test]
fn data_service_reports_expired_transaction() {
    let mut p = pib();
    let mut d = ready(&mut p);
    let req = request(true);
    let key = req.key;
    d.insert(&p, req);
    let table_key = match poll(&mut d, &mut p, &Vec::new()) {
        Some(DataServiceAction::SetPendingShort(k, _, _)) => k,
        other => panic!("unexpected {:?}", other),
    };
    d.process_set_pending_result(table_key, true);
    assert_eq!(poll(&mut d, &mut p, &Vec::new()), None);
    assert_eq!(
        poll(&mut d, &mut p, &vec![key]),
        Some(DataServiceAction::ReportResult(key, Err(DeviceQueueError::TransactionExpired)))
    );
}

#[test]
fn data_service_retries_failed_send() {
    let mut p = pib();
    let mut d = ready(&mut p);
    d.insert(&p, request(false));
    let first = match poll(&mut d, &mut p, &Vec::new()) {
        Some(DataServiceAction::SendFrame(k, _)) => k,
        other => panic!("unexpected {:?}", other),
    };
    d.process_send_result(first, false);
    match poll(&mut d, &mut p, &Vec::new()) {
        Some(DataServiceAction::SendFrame(k, frame)) => {
            assert_ne!(k, first);
            assert_eq!(frame.sequence_number, Some(11));
        }
        other => panic!("unexpected {:?}", other),
    }
}

#[test]
fn mlme_reset_request_resets_pib_and_data() {
    let mut p = pib();
    let mut d = ready(&mut p);
    d.insert(&p, request(false));
    let mut m = ManagementService::new(&p);
    let confirm = m.process_mlme_request(
        &mut p,
        &mut d,
        mlme::Request::Reset(mlme::ResetRequest { set_default_pib: true }),
    );
    assert_eq!(confirm, Some(mlme::Confirm::Reset(Ok(()))));
    assert_eq!(p.mac_short_address, ShortAddress(0xFFFF));
    assert_eq!(p.mac_pan_id, PANID(0xFFFF));
    assert_eq!(p.mac_extended_address, ExtendedAddress(0x0102));
    // The data service starts again by clearing the pending tables.
    match poll(&mut d, &mut p, &Vec::new()) {
        Some(DataServiceAction::InitPendingTable(_)) => {}
        other => panic!("unexpected {:?}", other),
    }
}

#[test]
fn mlme_request_dispatches_get_and_set() {
    let mut p = pib();
    let mut d = DataService::new();
    let mut m = ManagementService::new(&p);
    let confirm = m.process_mlme_request(
        &mut p,
        &mut d,
        mlme::Request::SetAttribute(mlme::SetRequest {
            attribute: PIBProperty::MacAssociationPermit,
            value: PIBValue::Bool(true),
        }),
    );
    assert_eq!(confirm, Some(mlme::Confirm::SetAttribute(PIBProperty::MacAssociationPermit, Ok(()))));
    let confirm = m.process_mlme_request(
        &mut p,
        &mut d,
        mlme::Request::Get(mlme::GetRequest { attribute: PIBProperty::MacAssociationPermit }),
    );
    assert_eq!(
        confirm,
        Some(mlme::Confirm::Get(PIBProperty::MacAssociationPermit, Ok(PIBValue::Bool(true))))
    );
    let confirm = m.process_mlme_request(
        &mut p,
        &mut d,
        mlme::Request::Start(mlme::StartRequest {
            pan_id: PANID(0x1111),
            channel_number: 15,
            channel_page: 0,
            start_time: 0,
            beacon_order: 15,
            superframe_order: 15,
            pan_coordinator: true,
            battery_life_extension: false,
        }),
    );
    assert_eq!(confirm, Some(mlme::Confirm::Start(Ok(()))));
    assert_eq!(p.mac_pan_id, PANID(0x1111));
    assert_eq!(p.phy_current_channel, 15);
}
