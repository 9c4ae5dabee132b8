use futures::task::noop_waker_ref;
use std::task::Context;
use zigbee_mac::ieee802154::mac::commands::Command;
use zigbee_mac::ieee802154::mac::data::DataServiceAction;
use zigbee_mac::ieee802154::mac::frame::{
    Address, AddressSpecification, AddressingMode, Frame, FrameType, FullAddress,
};
use zigbee_mac::ieee802154::mac::service::{MacData, MacStartup, StartupOutcome, StartupStage};
use zigbee_mac::ieee802154::pib::{PIBProperty, PIBValue};
use zigbee_mac::ieee802154::services::{mcps, mlme};
use zigbee_mac::ieee802154::{ExtendedAddress, ShortAddress, PANID};
use zigbee_mac::parse_serialize::SerializeError;
use zigbee_mac::radio::raw::RawRadioParam;
use zigbee_mac::radio::{RadioError, RadioParamType, RadioParamValue, RadioRequest, RadioResponse};
use zigbee_mac::unique_key::UniqueKey;

fn poll(mac: &mut MacData) -> Option<DataServiceAction> {
    let mut cx = Context::from_waker(noop_waker_ref());
    mac.data.poll_action(&mut mac.pib, &Vec::new(), &Vec::new(), &mut cx)
}

fn beacon_request_bytes() -> Vec<u8> {
    Frame {
        frame_pending: false,
        acknowledge_request: false,
        sequence_number: Some(1),
        destination: AddressSpecification::Short(PANID(0xFFFF), ShortAddress(0xFFFF)),
        source: AddressSpecification::NotPresent,
        frame_type: FrameType::Command(Command::BeaconRequest()),
    }
    .serialize()
    .unwrap()
}

#[test]
fn mac_data_starts_fresh() {
    let mut mac = MacData::new(ExtendedAddress(0x0011_2233_4455_6677), 11, 20);
    assert_eq!(mac.pib.mac_extended_address, ExtendedAddress(0x0011_2233_4455_6677));
    assert_eq!(mac.pib.phy_current_channel, 11);
    assert_eq!(mac.pib.phy_tx_power, 20);
    assert!(mac.management.take_outgoing().is_empty());
    // The pending tables are cleared first.
    match poll(&mut mac) {
        Some(DataServiceAction::InitPendingTable(_)) => {}
        other => panic!("unexpected {:?}", other),
    }
}

#[test]
fn data_actions_become_radio_requests() {
    let key = UniqueKey::new();
    match MacData::radio_request_for(&DataServiceAction::InitPendingTable(key)) {
        Some(Ok(RadioRequest::InitPendingDataTable(k))) => assert_eq!(k, key),
        other => panic!("unexpected {:?}", other),
    }
    let frame = Frame {
        frame_pending: false,
        acknowledge_request: false,
        sequence_number: Some(7),
        destination: AddressSpecification::Short(PANID(0x1234), ShortAddress(5)),
        source: AddressSpecification::Short(PANID(0x1234), ShortAddress(0)),
        frame_type: FrameType::Data(vec![1, 2, 3]),
    };
    let bytes = frame.serialize().unwrap();
    match MacData::radio_request_for(&DataServiceAction::SendFrame(key, frame)) {
        Some(Ok(RadioRequest::SendPacket(k, data))) => {
            assert_eq!(k, key);
            assert_eq!(data, bytes);
        }
        other => panic!("unexpected {:?}", other),
    }
    assert!(MacData::radio_request_for(&DataServiceAction::ReportResult(key, Ok(vec![]))).is_none());
}

#[test]
fn received_beacon_request_is_indicated() {
    let mut mac = MacData::new(ExtendedAddress(0x0102), 11, 20);
    let indication = mac.process_radio_response(RadioResponse::OnPacket(beacon_request_bytes()));
    assert_eq!(
        indication,
        Ok(Some(mlme::Indication::BeaconRequest {
            beacon_type: mlme::BeaconType::Beacon,
            src_addr: None,
            dst_pan_id: PANID(0xFFFF),
        }))
    );
}

#[test]
fn received_beacon_request_with_auto_respond_queues_a_beacon() {
    let mut mac = MacData::new(ExtendedAddress(0x0102), 11, 20);
    mac.pib.mac_beacon_auto_respond = true;
    let indication = mac.process_radio_response(RadioResponse::OnPacket(beacon_request_bytes()));
    assert_eq!(indication, Ok(None));
    assert_eq!(mac.management.take_outgoing().len(), 1);
}

#[test]
fn undecodable_packet_is_refused() {
    let mut mac = MacData::new(ExtendedAddress(0x0102), 11, 20);
    assert_eq!(
        mac.process_radio_response(RadioResponse::OnPacket(vec![0x03])),
        Err(SerializeError::InsufficientData)
    );
    let mut longer = beacon_request_bytes();
    longer.push(0);
    assert_eq!(mac.process_radio_response(RadioResponse::OnPacket(longer)), Err(SerializeError::DataLeft));
}

#[test]
fn pending_table_result_goes_to_the_data_service() {
    let mut mac = MacData::new(ExtendedAddress(0x0102), 11, 20);
    let key = match poll(&mut mac) {
        Some(DataServiceAction::InitPendingTable(k)) => k,
        other => panic!("unexpected {:?}", other),
    };
    // A failure is retried with a new request.
    assert_eq!(
        mac.process_radio_response(RadioResponse::InitPendingDataTable(key, Err(RadioError::UnexpectedResponse))),
        Ok(None)
    );
    let key = match poll(&mut mac) {
        Some(DataServiceAction::InitPendingTable(k)) => k,
        other => panic!("unexpected {:?}", other),
    };
    assert_eq!(mac.process_radio_response(RadioResponse::InitPendingDataTable(key, Ok(()))), Ok(None));
    assert_eq!(poll(&mut mac), None);
}

#[test]
fn mlme_requests_and_data_requests() {
    let mut mac = MacData::new(ExtendedAddress(0x0102), 11, 20);
    let set = mlme::Request::SetAttribute(mlme::SetRequest {
        attribute: PIBProperty::MacShortAddress,
        value: PIBValue::ShortAddress(ShortAddress(0)),
    });
    assert_eq!(
        mac.process_mlme_request(set),
        Some(mlme::Confirm::SetAttribute(PIBProperty::MacShortAddress, Ok(())))
    );
    assert_eq!(mac.pib.mac_short_address, ShortAddress(0));
    mac.pib.mac_pan_id = PANID(0x1234);
    mac.pib.mac_dsn = 4;
    let key = match poll(&mut mac) {
        Some(DataServiceAction::InitPendingTable(k)) => k,
        other => panic!("unexpected {:?}", other),
    };
    mac.process_radio_response(RadioResponse::InitPendingDataTable(key, Ok(()))).unwrap();
    let destination = FullAddress { pan_id: PANID(0x1234), address: Address::Short(ShortAddress(5)) };
    mac.process_mcps_data_request(
        UniqueKey::new(),
        mcps::DataRequest {
            source_addressing_mode: AddressingMode::Short,
            destination: Some(destination),
            msdu: vec![9, 8],
            msdu_handle: mcps::MsduHandle::new(),
            ack_tx: false,
            indirect_tx: false,
        },
    );
    match poll(&mut mac) {
        Some(DataServiceAction::SendFrame(_, frame)) => {
            assert_eq!(frame.sequence_number, Some(4));
            assert_eq!(frame.destination, AddressSpecification::Short(PANID(0x1234), ShortAddress(5)));
            assert_eq!(frame.frame_type, FrameType::Data(vec![9, 8]));
        }
        other => panic!("unexpected {:?}", other),
    }
}

fn answer(startup: MacStartup, response: RadioResponse) -> (MacStartup, RadioRequest) {
    match startup.on_response(response) {
        StartupOutcome::Next(s, q) => (s, q),
        _ => panic!("startup did not move on"),
    }
}

#[test]
fn startup_reads_parameters_sets_rx_mode_and_powers_on() {
    let (startup, request) = MacStartup::start();
    assert_eq!(startup.stage, StartupStage::LongAddress);
    let key = match request {
        RadioRequest::GetParam(k, RawRadioParam::LongAddress, RadioParamType::U64) => k,
        other => panic!("unexpected {:?}", other),
    };
    // A response to another request is not for the startup.
    let other = RadioResponse::SendPacket(UniqueKey::new(), Ok(()));
    let startup = match startup.on_response(other) {
        StartupOutcome::Waiting(s) => s,
        _ => panic!("startup moved on"),
    };
    let (startup, request) = answer(
        startup,
        RadioResponse::GetParam(key, RawRadioParam::LongAddress, Ok(RadioParamValue::U64(0x1122))),
    );
    assert_eq!(startup.stage, StartupStage::TxPowerMax);
    assert_eq!(startup.extended_address, 0x1122);
    let key = match request {
        RadioRequest::GetParam(k, RawRadioParam::TxPowerMax, RadioParamType::U16) => k,
        other => panic!("unexpected {:?}", other),
    };
    let (startup, request) =
        answer(startup, RadioResponse::GetParam(key, RawRadioParam::TxPowerMax, Ok(RadioParamValue::U16(20))));
    let key = match request {
        RadioRequest::GetParam(k, RawRadioParam::Channel, RadioParamType::U16) => k,
        other => panic!("unexpected {:?}", other),
    };
    let (startup, request) =
        answer(startup, RadioResponse::GetParam(key, RawRadioParam::Channel, Ok(RadioParamValue::U16(11))));
    assert_eq!(startup.stage, StartupStage::RxMode);
    // Address filtering and automatic acknowledgements: bits 0 and 1.
    let key = match request {
        RadioRequest::SetParam(k, RawRadioParam::RxMode, RadioParamValue::U16(3)) => k,
        other => panic!("unexpected {:?}", other),
    };
    let (startup, request) =
        answer(startup, RadioResponse::SetParam(key, RawRadioParam::RxMode, Ok(RadioParamValue::U16(3))));
    let key = match request {
        RadioRequest::SetPower(k, true) => k,
        other => panic!("unexpected {:?}", other),
    };
    match startup.on_response(RadioResponse::SetPower(key, true, Ok(()))) {
        StartupOutcome::Done(mut mac) => {
            assert_eq!(mac.pib.mac_extended_address, ExtendedAddress(0x1122));
            assert_eq!(mac.pib.phy_current_channel, 11);
            assert_eq!(mac.pib.phy_max_tx_power, 20);
            assert!(mac.management.take_outgoing().is_empty());
        }
        _ => panic!("startup not done"),
    }
}

#[test]
fn startup_fails_on_a_failed_or_malformed_answer() {
    let (startup, request) = MacStartup::start();
    let key = match request {
        RadioRequest::GetParam(k, _, _) => k,
        other => panic!("unexpected {:?}", other),
    };
    match startup.on_response(RadioResponse::GetParam(key, RawRadioParam::LongAddress, Ok(RadioParamValue::U16(1)))) {
        StartupOutcome::Failed(StartupStage::LongAddress, RadioError::UnexpectedResponseSize) => {}
        _ => panic!("startup did not fail"),
    }
    let (startup, request) = MacStartup::start();
    let key = match request {
        RadioRequest::GetParam(k, _, _) => k,
        other => panic!("unexpected {:?}", other),
    };
    match startup.on_response(RadioResponse::GetParam(key, RawRadioParam::LongAddress, Err(RadioError::RawError(vec![7])))) {
        StartupOutcome::Failed(StartupStage::LongAddress, RadioError::RawError(d)) => assert_eq!(d, vec![7]),
        _ => panic!("startup did not fail"),
    }
}
