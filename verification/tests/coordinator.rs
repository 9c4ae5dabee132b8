use zigbee_mac::coordinator::{mainloop_startup, mainloop_step, MainloopAction, MainloopInput};
use zigbee_mac::ieee802154::mac::commands::{CapabilityInformation, DeviceType, PowerSource};
use zigbee_mac::ieee802154::mac::frame::{Address, AddressingMode, FullAddress};
use zigbee_mac::ieee802154::mac::service::MacData;
use zigbee_mac::ieee802154::pib::{PIBProperty, PIBValue};
use zigbee_mac::ieee802154::services::{mcps, mlme};
use zigbee_mac::ieee802154::{ExtendedAddress, ShortAddress, PANID};

#[test]
fn startup_resets_configures_and_starts() {
    let requests = mainloop_startup();
    assert_eq!(requests.len(), 7);
    assert_eq!(requests[0], mlme::Request::Reset(mlme::ResetRequest { set_default_pib: true }));
    assert_eq!(
        requests[1],
        mlme::Request::SetAttribute(mlme::SetRequest {
            attribute: PIBProperty::PhyCurrentChannel,
            value: PIBValue::U16(25),
        })
    );
    assert_eq!(
        requests[3],
        mlme::Request::SetAttribute(mlme::SetRequest {
            attribute: PIBProperty::MacShortAddress,
            value: PIBValue::ShortAddress(ShortAddress(0x0000)),
        })
    );
    assert_eq!(
        requests[4],
        mlme::Request::SetAttribute(mlme::SetRequest {
            attribute: PIBProperty::MacBeaconPayload,
            value: PIBValue::Blob(vec![
                0x00, 0x22, 0x84, 0x15, 0x68, 0x89, 0x0e, 0x00, 0x4b, 0x12, 0x00, 0xFF, 0xFF, 0xFF, 0x00,
            ]),
        })
    );
    assert_eq!(
        requests[6],
        mlme::Request::Start(mlme::StartRequest {
            pan_id: PANID(0x1234),
            channel_number: 25,
            channel_page: 0,
            start_time: 0,
            beacon_order: 15,
            superframe_order: 15,
            pan_coordinator: true,
            battery_life_extension: false,
        })
    );
}

#[test]
fn beacon_request_is_answered_with_a_beacon() {
    let input = MainloopInput::Mlme(mlme::Output::Indication(mlme::Indication::BeaconRequest {
        beacon_type: mlme::BeaconType::EnhancedBeacon,
        src_addr: None,
        dst_pan_id: PANID(0xffff),
    }));
    let actions = mainloop_step(input);
    assert_eq!(actions.len(), 1);
    match &actions[0] {
        MainloopAction::MlmeRequest(mlme::Request::Beacon(b)) => {
            assert_eq!(b.beacon_type, mlme::BeaconType::EnhancedBeacon);
            assert_eq!(b.channel, 25);
            assert_eq!(b.superframe_order, 15);
            assert_eq!(b.dst_addr, None);
        }
        other => panic!("unexpected action {:?}", other),
    }
}

#[test]
fn association_is_granted_and_followed_by_data() {
    let capability_information = CapabilityInformation {
        device_type: DeviceType::RFD,
        power_source: PowerSource::Battery,
        receiver_on_when_idle: false,
        fast_association: true,
        security_capable: false,
        allocate_address: true,
    };
    let input = MainloopInput::Mlme(mlme::Output::Indication(mlme::Indication::Associate {
        device_address: ExtendedAddress(0x0011_2233_4455_6677),
        capability_information,
    }));
    let actions = mainloop_step(input);
    assert_eq!(actions.len(), 2);
    match &actions[0] {
        MainloopAction::MlmeResponse(response) => assert_eq!(
            *response,
            mlme::Response::Associate {
                device_address: ExtendedAddress(0x0011_2233_4455_6677),
                fast_association: true,
                status: Ok(Some(ShortAddress(0x4567))),
            }
        ),
        other => panic!("unexpected action {:?}", other),
    }
    match &actions[1] {
        MainloopAction::McpsRequest(mcps::Request::Data(d)) => {
            assert_eq!(d.source_addressing_mode, AddressingMode::Short);
            assert_eq!(
                d.destination,
                Some(FullAddress { pan_id: PANID(0x1234), address: Address::Short(ShortAddress(0x4567)) })
            );
            assert_eq!(d.msdu.len(), 8 + 46);
            assert_eq!(&d.msdu[..8], &[0x48, 0x00, 0x67, 0x45, 0x00, 0x00, 0x1E, 0x28]);
            assert_eq!(d.msdu[8], 0x21);
            assert_eq!(d.msdu[53], 0x02);
            assert!(d.ack_tx);
            assert!(d.indirect_tx);
        }
        other => panic!("unexpected action {:?}", other),
    }
}

#[test]
fn confirmations_are_left_alone() {
    let input = MainloopInput::Mlme(mlme::Output::Confirm(mlme::Confirm::Start(Ok(()))));
    assert!(mainloop_step(input).is_empty());
}

#[test]
fn startup_sequence_makes_a_pan_coordinator() {
    let mut mac = MacData::new(ExtendedAddress(0x0011_2233_4455_6677), 11, 20);
    for request in mainloop_startup() {
        match mac.process_mlme_request(request) {
            Some(mlme::Confirm::Reset(Ok(())))
            | Some(mlme::Confirm::SetAttribute(_, Ok(())))
            | Some(mlme::Confirm::Start(Ok(()))) => {}
            other => panic!("unexpected confirmation {:?}", other),
        }
    }
    assert_eq!(mac.pib.phy_current_channel, 25);
    assert_eq!(mac.pib.mac_pan_id, PANID(0x1234));
    assert_eq!(mac.pib.mac_short_address, ShortAddress(0x0000));
    assert!(mac.pib.mac_association_permit);
    assert!(mac.pib.mac_beacon_auto_respond);
    assert_eq!(mac.pib.mac_beacon_payload.len(), 15);
    assert_eq!(
        mac.pib.mac_associated_pan_coord,
        Some((ExtendedAddress(0x0011_2233_4455_6677), ShortAddress(0x0000)))
    );
}
