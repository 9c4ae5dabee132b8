use zigbee_mac::ieee802154::mac::commands::{AssociationError, AssociationResponse, Command};
use zigbee_mac::ieee802154::mac::frame::{AddressSpecification, Beacon, Frame, FrameControl, FrameType};
use zigbee_mac::ieee802154::{ExtendedAddress, ShortAddress, PANID};
use zigbee_mac::parse_serialize::SerializeError;

#[test]
fn frame_test_frame_control_parsing() {
    // Beacon request
    let input: [u8; 2] = [0x03, 0x08];
    let parsed = FrameControl::deserialize_complete(&input).unwrap();
    assert_eq!(parsed.frame_type(), 3);
    assert_eq!(parsed.security_enabled(), 0);
    assert_eq!(parsed.frame_pending(), 0);
    assert_eq!(parsed.acknowledge_request(), 0);
    assert_eq!(parsed.pan_id_compression(), 0);
    assert_eq!(parsed.reserved(), 0);
    assert_eq!(parsed.sequence_number_supression(), 0);
    assert_eq!(parsed.information_elements_present(), 0);
    assert_eq!(parsed.destination_addressing_mode(), 2);
    assert_eq!(parsed.frame_version(), 0);
    assert_eq!(parsed.source_addressing_mode(), 0);

    // Link status
    let input: [u8; 2] = [0x41, 0x88];
    let parsed = FrameControl::deserialize_complete(&input).unwrap();
    assert_eq!(parsed.frame_type(), 1);
    assert_eq!(parsed.security_enabled(), 0);
    assert_eq!(parsed.frame_pending(), 0);
    assert_eq!(parsed.acknowledge_request(), 0);
    assert_eq!(parsed.pan_id_compression(), 1);
    assert_eq!(parsed.reserved(), 0);
    assert_eq!(parsed.sequence_number_supression(), 0);
    assert_eq!(parsed.information_elements_present(), 0);
    assert_eq!(parsed.destination_addressing_mode(), 2);
    assert_eq!(parsed.frame_version(), 0);
    assert_eq!(parsed.source_addressing_mode(), 2);

    // Beacon
    let input: [u8; 2] = [0x00, 0x80];
    let parsed = FrameControl::deserialize_complete(&input).unwrap();
    assert_eq!(parsed.frame_type(), 0);
    assert_eq!(parsed.security_enabled(), 0);
    assert_eq!(parsed.frame_pending(), 0);
    assert_eq!(parsed.acknowledge_request(), 0);
    assert_eq!(parsed.pan_id_compression(), 0);
    assert_eq!(parsed.reserved(), 0);
    assert_eq!(parsed.sequence_number_supression(), 0);
    assert_eq!(parsed.information_elements_present(), 0);
    assert_eq!(parsed.destination_addressing_mode(), 0);
    assert_eq!(parsed.frame_version(), 0);
    assert_eq!(parsed.source_addressing_mode(), 2);
}

#[test]
fn test_frame_control_serialize() {
    let input: [u8; 2] = [0x41, 0x88];
    let parsed = FrameControl::deserialize_complete(&input).unwrap();
    assert_eq!(parsed.serialize().unwrap(), input);

    let input: [u8; 2] = [0x00, 0x80];
    let parsed = FrameControl::deserialize_complete(&input).unwrap();
    assert_eq!(parsed.serialize().unwrap(), input);
}

#[test]
fn test_beacon_request() {
    // Beacon request
    let serialized = vec![0x03, 0x08, 0xa5, 0xFF, 0xFF, 0xFF, 0xFF, 0x07];
    let data = Frame {
        frame_pending: false,
        acknowledge_request: false,
        sequence_number: Some(165),
        destination: (PANID::broadcast(), ShortAddress::broadcast()).into(),
        source: AddressSpecification::NotPresent,
        frame_type: FrameType::Command(Command::BeaconRequest()),
    };
    assert_eq!(Frame::deserialize_complete(&serialized).unwrap(), data);
    assert_eq!(data.serialize().unwrap(), serialized);
}

#[test]
fn test_mac_link_status() {
    // Link Status
    let input: [u8; 44] = [
        0x41, 0x88, 0x01, 0x98, 0x76, 0xFF, 0xFF, 0x00, 0x00, 0x09, 0x12, 0xFC, 0xFF, 0x00, 0x00,
        0x01, 0x13, 0x15, 0x68, 0x89, 0x0e, 0x00, 0x4b, 0x12, 0x28, 0x02, 0x00, 0x00, 0x00, 0x15,
        0x68, 0x89, 0x0e, 0x00, 0x4b, 0x12, 0x00, 0x00, 0x71, 0x50, 0x83, 0x72, 0x0c, 0xe4,
    ];
    let parsed = Frame::deserialize_complete(&input).unwrap();
    assert_eq!(
        parsed,
        Frame {
            frame_pending: false,
            acknowledge_request: false,
            sequence_number: Some(1),
            destination: (PANID(0x7698), ShortAddress::broadcast()).into(),
            source: (PANID(0x7698), ShortAddress(0)).into(),
            frame_type: FrameType::Data(input[9..].to_vec()),
        }
    );

    // Beacon
    let input: [u8; 26] = [
        0x00, 0x80, 0x40, 0x98, 0x76, 0x00, 0x00, 0xff, 0xcf, 0x00, 0x00, 0x00, 0x22, 0x84, 0x15,
        0x68, 0x89, 0x0e, 0x00, 0x4b, 0x12, 0x00, 0xff, 0xff, 0xff, 0x00,
    ];
    let parsed = Frame::deserialize_complete(&input).unwrap();
    assert_eq!(
        parsed,
        Frame {
            frame_pending: false,
            acknowledge_request: false,
            sequence_number: Some(64),
            destination: AddressSpecification::NotPresent,
            source: (PANID(0x7698), ShortAddress(0)).into(),
            frame_type: FrameType::Beacon(Beacon {
                beacon_order: 15,
                superframe_order: 15,
                final_cap_slot: 15,
                battery_life_extension: false,
                pan_coordinator: true,
                association_permit: true,
                pending_long_addresses: vec![],
                pending_short_addresses: vec![],
                payload: input[11..].to_vec(),
            }),
        }
    );
}

#[test]
fn test_serialize_mac_frame() {
    let input = Frame {
        frame_pending: false,
        acknowledge_request: false,
        sequence_number: Some(64),
        destination: AddressSpecification::NotPresent,
        source: (PANID(0x7698), ShortAddress(0)).into(),
        frame_type: FrameType::Beacon(Beacon {
            beacon_order: 15,
            superframe_order: 15,
            final_cap_slot: 15,
            battery_life_extension: false,
            pan_coordinator: true,
            association_permit: true,
            pending_short_addresses: vec![],
            pending_long_addresses: vec![],
            payload: b"\x00\x22\x84\x15\x68\x89\x0e\x00\x4b\x12\x00\xff\xff\xff\x00".to_vec(),
        }),
    };
    assert_eq!(
        vec![
            0x00, 0x80, 0x40, 0x98, 0x76, 0x00, 0x00, 0xFF, 0xCF, 0x00, 0x00, 0x00, 0x22, 0x84,
            0x15, 0x68, 0x89, 0x0e, 0x00, 0x4b, 0x12, 0x00, 0xFF, 0xFF, 0xFF, 0x00
        ],
        input.serialize().unwrap()
    );

    let input = Frame {
        frame_pending: false,
        acknowledge_request: true,
        sequence_number: Some(10),
        destination: (PANID(0x7698), ExtendedAddress(0xd0cf5efffe1c6306)).into(),
        source: (PANID(0x7698), ExtendedAddress(0x00124b000e896815)).into(),
        frame_type: FrameType::Command(Command::AssociationResponse(AssociationResponse {
            fast_association: false,
            status: Ok(ShortAddress(0x558b)),
        })),
    };
    assert_eq!(
        vec![
            0x63, 0xcc, 0x0a, 0x98, 0x76, 0x06, 0x63, 0x1c, 0xfe, 0xff, 0x5e, 0xcf, 0xd0, 0x15,
            0x68, 0x89, 0x0e, 0x00, 0x4b, 0x12, 0x00, 0x02, 0x8b, 0x55, 0x00,
        ],
        input.serialize().unwrap()
    );
}

fn sample_frames() -> Vec<Frame> {
    vec![
        Frame {
            frame_pending: true,
            acknowledge_request: true,
            sequence_number: None,
            destination: (PANID(0x1234), ShortAddress(0x0001)).into(),
            source: (PANID(0x4321), ExtendedAddress(0x0102030405060708)).into(),
            frame_type: FrameType::Data(vec![1, 2, 3]),
        },
        Frame {
            frame_pending: false,
            acknowledge_request: false,
            sequence_number: Some(7),
            destination: AddressSpecification::NotPresent,
            source: AddressSpecification::NotPresent,
            frame_type: FrameType::Ack,
        },
        Frame {
            frame_pending: false,
            acknowledge_request: true,
            sequence_number: Some(200),
            destination: (PANID(0x7698), ShortAddress(0x0000)).into(),
            source: (PANID(0x7698), ShortAddress(0x1111)).into(),
            frame_type: FrameType::Command(Command::AssociationResponse(AssociationResponse {
                fast_association: true,
                status: Err(AssociationError::PANAccessDenied),
            })),
        },
        Frame {
            frame_pending: false,
            acknowledge_request: false,
            sequence_number: Some(1),
            destination: AddressSpecification::NotPresent,
            source: (PANID(0x7698), ShortAddress(0x0000)).into(),
            frame_type: FrameType::Beacon(Beacon {
                beacon_order: 3,
                superframe_order: 2,
                final_cap_slot: 9,
                battery_life_extension: true,
                pan_coordinator: false,
                association_permit: true,
                pending_short_addresses: vec![],
                pending_long_addresses: vec![],
                payload: vec![0xAA],
            }),
        },
    ]
}

#[test]
fn frame_roundtrip_examples() {
    for frame in sample_frames() {
        let bytes = frame.serialize().unwrap();
        assert_eq!(Frame::deserialize_complete(&bytes).unwrap(), frame);
    }
}

#[test]
fn frame_beacon_order_too_big() {
    let frame = Frame {
        frame_pending: false,
        acknowledge_request: false,
        sequence_number: Some(1),
        destination: AddressSpecification::NotPresent,
        source: AddressSpecification::NotPresent,
        frame_type: FrameType::Beacon(Beacon {
            beacon_order: 16,
            superframe_order: 0,
            final_cap_slot: 0,
            battery_life_extension: false,
            pan_coordinator: false,
            association_permit: false,
            pending_short_addresses: vec![],
            pending_long_addresses: vec![],
            payload: vec![],
        }),
    };
    assert_eq!(
        frame.serialize(),
        Err(SerializeError::Unimplemented("Beacon order is too big"))
    );
}

#[test]
fn frame_decode_errors() {
    assert_eq!(Frame::deserialize_complete(&[0x03]), Err(SerializeError::InsufficientData));
    // Reserved destination addressing mode.
    assert_eq!(
        Frame::deserialize_complete(&[0x02, 0x04, 0x01]),
        Err(SerializeError::Unimplemented(
            "Unable to parse Frame with 'Reserved' address specification"
        ))
    );
    // An acknowledgement followed by a stray byte.
    assert_eq!(
        Frame::deserialize_complete(&[0x02, 0x00, 0x05, 0x99]),
        Err(SerializeError::DataLeft)
    );
    // A beacon with a GTS field.
    assert_eq!(
        Frame::deserialize_complete(&[0x00, 0x00, 0x01, 0xFF, 0xCF, 0x01, 0x00]),
        Err(SerializeError::Unimplemented(
            "Beacon frame, GTS or pending addresses not empty"
        ))
    );
    // An unknown command identifier.
    assert_eq!(
        Frame::deserialize_complete(&[0x03, 0x00, 0x05, 0x09]),
        Err(SerializeError::UnexpectedData)
    );
}

#[test]
fn frame_ack_helpers() {
    let frame = Frame {
        frame_pending: false,
        acknowledge_request: true,
        sequence_number: Some(42),
        destination: (PANID(1), ShortAddress(2)).into(),
        source: (PANID(1), ShortAddress(3)).into(),
        frame_type: FrameType::Data(vec![]),
    };
    assert_eq!(frame.expect_ack(), Some(42));
    let ack = frame.create_ack(true).unwrap();
    assert_eq!(ack.frame_type, FrameType::Ack);
    assert_eq!(ack.sequence_number, Some(42));
    assert!(ack.frame_pending);
    assert_eq!(ack.serialize().unwrap(), vec![0x12, 0x00, 42]);
    let mut no_ack = frame.clone();
    no_ack.acknowledge_request = false;
    assert_eq!(no_ack.expect_ack(), None);
    assert_eq!(no_ack.create_ack(false), None);
    let pan: Option<PANID> = frame.destination.into();
    assert_eq!(pan, Some(PANID(1)));
}
