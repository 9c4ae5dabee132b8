use zigbee_mac::ieee802154::mac::commands::{
    CapabilityInformation, Command, DeviceType, PowerSource,
};
use zigbee_mac::ieee802154::mac::frame::{
    Address, AddressSpecification, Beacon, Frame, FrameType, FullAddress,
};
use zigbee_mac::ieee802154::mac::management::ManagementService;
use zigbee_mac::ieee802154::pib::{PIBProperty, PIBValue, PIB};
use zigbee_mac::ieee802154::services::mlme;
use zigbee_mac::ieee802154::{ExtendedAddress, ShortAddress, PANID};

fn pib() -> PIB {
    PIB::new(ExtendedAddress(0x0011223344556677), 11, 20)
}

#[test]
fn pib_defaults_and_get() {
    let p = pib();
    assert_eq!(p.get(PIBProperty::MacPanId), Ok(PIBValue::PANID(PANID(0xFFFF))));
    assert_eq!(
        p.get(PIBProperty::MacShortAddress),
        Ok(PIBValue::ShortAddress(ShortAddress(0xFFFF)))
    );
    assert_eq!(p.get(PIBProperty::PhyTxPower), Ok(PIBValue::U16(20)));
    assert_eq!(p.get(PIBProperty::PhyCurrentChannel), Ok(PIBValue::U16(11)));
    assert_eq!(p.get(PIBProperty::MacAssociatedPanCoord), Ok(PIBValue::Empty));
    assert_eq!(
        p.get(PIBProperty::MacTransactionPersistenceTime),
        Ok(PIBValue::Duration(std::time::Duration::from_secs(300)))
    );
    assert_eq!(p.get(PIBProperty::MacMaxFrameRetries), Err(()));
}

#[test]
fn pib_set_then_get() {
    let mut p = pib();
    assert_eq!(p.set(PIBProperty::MacBeaconPayload, PIBValue::Blob(vec![1, 2])), Ok(()));
    assert_eq!(p.get(PIBProperty::MacBeaconPayload), Ok(PIBValue::Blob(vec![1, 2])));
    assert_eq!(p.set(PIBProperty::MacBsn, PIBValue::U8(255)), Ok(()));
    assert_eq!(p.next_beacon_sequence_nr(), 255);
    assert_eq!(p.next_beacon_sequence_nr(), 0);
    assert_eq!(p.set(PIBProperty::MacDsn, PIBValue::U8(7)), Ok(()));
    assert_eq!(p.next_data_sequence_nr(), 7);
    assert_eq!(p.get(PIBProperty::MacDsn), Ok(PIBValue::U8(8)));
}

#[test]
fn pib_set_errors() {
    let mut p = pib();
    assert_eq!(
        p.set(PIBProperty::MacExtendedAddress, PIBValue::ExtendedAddress(ExtendedAddress(1))),
        Err(mlme::Error::ReadOnly)
    );
    assert_eq!(
        p.set(PIBProperty::MacPanId, PIBValue::U16(3)),
        Err(mlme::Error::InvalidParameter)
    );
    assert_eq!(
        p.set(PIBProperty::MacMaxFrameRetries, PIBValue::U16(3)),
        Err(mlme::Error::UnsupportedAttribute)
    );
    assert_eq!(p.get(PIBProperty::MacPanId), Ok(PIBValue::PANID(PANID(0xFFFF))));
}

#[test]
fn pib_reset_and_addresses() {
    let mut p = pib();
    p.mac_short_address = ShortAddress(0x1234);
    p.mac_pan_id = PANID(0x7698);
    p.phy_tx_power = 5;
    assert_eq!(
        p.get_full_short_address(),
        FullAddress { pan_id: PANID(0x7698), address: Address::Short(ShortAddress(0x1234)) }
    );
    p.mac_short_address = ShortAddress(0xFFFE);
    assert_eq!(
        p.get_full_short_address(),
        FullAddress {
            pan_id: PANID(0x7698),
            address: Address::Extended(ExtendedAddress(0x0011223344556677))
        }
    );
    assert_eq!(
        p.get_full_extended_address(),
        FullAddress {
            pan_id: PANID(0x7698),
            address: Address::Extended(ExtendedAddress(0x0011223344556677))
        }
    );
    p.reset();
    assert_eq!(p.mac_pan_id, PANID(0xFFFF));
    assert_eq!(p.phy_max_tx_power, 5);
    assert_eq!(p.phy_tx_power, 5);
    assert_eq!(p.mac_extended_address, ExtendedAddress(0x0011223344556677));
}

fn coordinator() -> (ManagementService, PIB) {
    let mut p = pib();
    p.mac_short_address = ShortAddress(0x0000);
    let mut m = ManagementService::new(&p);
    let start = mlme::StartRequest {
        pan_id: PANID(0x7698),
        channel_number: 15,
        channel_page: 0,
        start_time: 0,
        beacon_order: 15,
        superframe_order: 15,
        pan_coordinator: true,
        battery_life_extension: false,
    };
    assert_eq!(m.process_mlme_start_request(&mut p, start), Ok(()));
    (m, p)
}

#[test]
fn management_start_request() {
    let mut p = pib();
    let mut m = ManagementService::new(&p);
    let start = mlme::StartRequest {
        pan_id: PANID(0x7698),
        channel_number: 15,
        channel_page: 0,
        start_time: 0,
        beacon_order: 15,
        superframe_order: 15,
        pan_coordinator: true,
        battery_life_extension: false,
    };
    assert_eq!(m.process_mlme_start_request(&mut p, start), Err(mlme::Error::NoShortAddress));
    p.mac_short_address = ShortAddress(0);
    let mut bad = start;
    bad.beacon_order = 3;
    assert_eq!(m.process_mlme_start_request(&mut p, bad), Err(mlme::Error::InvalidParameter));
    assert_eq!(m.process_mlme_start_request(&mut p, start), Ok(()));
    assert_eq!(p.phy_current_channel, 15);
    assert_eq!(p.mac_pan_id, PANID(0x7698));
    assert_eq!(p.mac_associated_pan_coord, Some((p.mac_extended_address, ShortAddress(0))));
}

#[test]
fn management_beacon_request() {
    let (mut m, mut p) = coordinator();
    p.mac_bsn = 9;
    p.mac_beacon_payload = vec![0xAB];
    let bad = mlme::BeaconRequest {
        beacon_type: mlme::BeaconType::Beacon,
        channel: 11,
        channel_page: 0,
        superframe_order: 15,
        dst_addr: None,
    };
    assert_eq!(m.process_mlme_beacon_request(&mut p, bad), Err(mlme::Error::InvalidParameter));
    let good = mlme::BeaconRequest { channel: 15, ..bad };
    assert_eq!(m.process_mlme_beacon_request(&mut p, good), Ok(()));
    let frames = m.take_outgoing();
    assert_eq!(frames.len(), 1);
    assert_eq!(
        frames[0],
        Frame {
            frame_pending: false,
            acknowledge_request: false,
            sequence_number: Some(9),
            destination: AddressSpecification::NotPresent,
            source: AddressSpecification::Short(PANID(0x7698), ShortAddress(0)),
            frame_type: FrameType::Beacon(Beacon {
                beacon_order: 15,
                superframe_order: 15,
                final_cap_slot: 15,
                battery_life_extension: false,
                pan_coordinator: true,
                association_permit: false,
                pending_short_addresses: vec![],
                pending_long_addresses: vec![],
                payload: vec![0xAB],
            }),
        }
    );
    assert_eq!(p.mac_bsn, 10);
    assert!(m.take_outgoing().is_empty());
}

#[test]
fn management_get_set_requests() {
    let (mut m, mut p) = coordinator();
    let set = mlme::SetRequest {
        attribute: PIBProperty::MacAssociationPermit,
        value: PIBValue::Bool(true),
    };
    assert_eq!(m.process_mlme_set_request(&mut p, set), Ok(()));
    let get = mlme::GetRequest { attribute: PIBProperty::MacAssociationPermit };
    assert_eq!(m.process_mlme_get_request(&p, get), Ok(PIBValue::Bool(true)));
    let get = mlme::GetRequest { attribute: PIBProperty::MacMaxFrameRetries };
    assert_eq!(m.process_mlme_get_request(&p, get), Err(mlme::Error::UnsupportedAttribute));
}

fn beacon_request_frame() -> Frame {
    Frame {
        frame_pending: false,
        acknowledge_request: false,
        sequence_number: Some(1),
        destination: (PANID(0xFFFF), ShortAddress(0xFFFF)).into(),
        source: AddressSpecification::NotPresent,
        frame_type: FrameType::Command(Command::BeaconRequest()),
    }
}

#[test]
fn management_frames() {
    let (mut m, mut p) = coordinator();
    // Without automatic responses, a beacon request is indicated.
    let ind = m.process_frame(&mut p, &beacon_request_frame());
    assert_eq!(
        ind,
        Some(mlme::Indication::BeaconRequest {
            beacon_type: mlme::BeaconType::Beacon,
            src_addr: None,
            dst_pan_id: PANID(0xFFFF),
        })
    );
    // With them, a beacon is queued.
    p.mac_beacon_auto_respond = true;
    assert_eq!(m.process_frame(&mut p, &beacon_request_frame()), None);
    assert_eq!(m.take_outgoing().len(), 1);

    let capability = CapabilityInformation {
        device_type: DeviceType::RFD,
        power_source: PowerSource::Battery,
        receiver_on_when_idle: false,
        fast_association: false,
        security_capable: false,
        allocate_address: true,
    };
    let association = Frame {
        frame_pending: false,
        acknowledge_request: true,
        sequence_number: Some(2),
        destination: (PANID(0x7698), ShortAddress(0)).into(),
        source: (PANID(0xFFFF), ExtendedAddress(0xAA)).into(),
        frame_type: FrameType::Command(Command::AssociationRequest(capability)),
    };
    // Association is not permitted yet.
    assert_eq!(m.process_frame(&mut p, &association), None);
    p.mac_association_permit = true;
    assert_eq!(
        m.process_frame(&mut p, &association),
        Some(mlme::Indication::Associate {
            device_address: ExtendedAddress(0xAA),
            capability_information: capability,
        })
    );
    // An acknowledgement gives nothing.
    let ack = Frame { frame_type: FrameType::Ack, ..association.clone() };
    assert_eq!(m.process_frame(&mut p, &ack), None);
}
