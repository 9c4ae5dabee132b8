use zigbee_mac::ieee802154::mac::frame::FrameControl;
use zigbee_mac::ieee802154::mac_frame::{
    AddressSpecification, MACCommand, MACFrame, MACFrameType, ParseError,
};
use zigbee_mac::ieee802154::{ShortAddress, PANID};

#[test]
fn test_parse_mac_frame() {
    // Beacon request
    let input: [u8; 8] = [0x03, 0x08, 0xa5, 0xFF, 0xFF, 0xFF, 0xFF, 0x07];
    let parsed = MACFrame::parse_from_buf(&input).unwrap();
    assert_eq!(
        parsed,
        MACFrame {
            sequence_number: Some(165),
            destination_pan: Some(PANID(0xFFFF)),
            destination: AddressSpecification::Short(ShortAddress(0xFFFF)),
            source_pan: None,
            source: AddressSpecification::NotPresent,
            frame_type: MACFrameType::Command(MACCommand::BeaconRequest),
            payload: Vec::new()
        }
    );

    // Link Status
    let input: [u8; 44] = [
        0x41, 0x88, 0x01, 0x98, 0x76, 0xFF, 0xFF, 0x00, 0x00, 0x09, 0x12, 0xFC, 0xFF, 0x00, 0x00,
        0x01, 0x13, 0x15, 0x68, 0x89, 0x0e, 0x00, 0x4b, 0x12, 0x28, 0x02, 0x00, 0x00, 0x00, 0x15,
        0x68, 0x89, 0x0e, 0x00, 0x4b, 0x12, 0x00, 0x00, 0x71, 0x50, 0x83, 0x72, 0x0c, 0xe4,
    ];
    let parsed = MACFrame::parse_from_buf(&input).unwrap();
    assert_eq!(
        parsed,
        MACFrame {
            sequence_number: Some(1),
            destination_pan: Some(PANID(0x7698)),
            destination: AddressSpecification::Short(ShortAddress(0xFFFF)),
            source_pan: Some(PANID(0x7698)),
            source: AddressSpecification::Short(ShortAddress(0)),
            frame_type: MACFrameType::Data,
            payload: input[9..].to_vec()
        }
    );

    // Beacon
    let input: [u8; 26] = [
        0x00, 0x80, 0x40, 0x98, 0x76, 0x00, 0x00, 0xff, 0xcf, 0x00, 0x00, 0x00, 0x22, 0x84, 0x15,
        0x68, 0x89, 0x0e, 0x00, 0x4b, 0x12, 0x00, 0xff, 0xff, 0xff, 0x00,
    ];
    let parsed = MACFrame::parse_from_buf(&input).unwrap();
    assert_eq!(
        parsed,
        MACFrame {
            sequence_number: Some(64),
            source_pan: Some(PANID(0x7698)),
            source: AddressSpecification::Short(ShortAddress(0)),
            destination_pan: None,
            destination: AddressSpecification::NotPresent,
            frame_type: MACFrameType::Beacon {
                beacon_order: 15,
                superframe_order: 15,
                final_cap_slot: 15,
                battery_life_extension: false,
                pan_coordinator: true,
                association_permit: true,
            },
            payload: input[11..].to_vec()
        }
    );
}

#[test]
fn mac_frame_parse_errors() {
    assert_eq!(MACFrame::parse_from_buf(&[0x03]), Err(ParseError::InsufficientData));
    // Association request commands are not read.
    assert_eq!(
        MACFrame::parse_from_buf(&[0x03, 0x00, 0x01, 0x01]),
        Err(ParseError::UnimplementedBehaviour)
    );
    // Frame type 5 is not known.
    assert_eq!(
        MACFrame::parse_from_buf(&[0x05, 0x00, 0x01]),
        Err(ParseError::UnexpectedData)
    );
    // A reserved destination mode reads a PAN identifier but no address.
    let parsed = MACFrame::parse_from_buf(&[0x02, 0x04, 0x09, 0x34, 0x12]).unwrap();
    assert_eq!(parsed.destination, AddressSpecification::Reserved);
    assert_eq!(parsed.destination_pan, Some(PANID(0x1234)));
    assert_eq!(parsed.frame_type, MACFrameType::Ack);
}

#[test]
fn ieee802154_test_frame_control_parsing() {
    // Beacon request
    let input: [u8; 2] = [0x03, 0x08];
    let (parsed, _) = FrameControl::parse_from_buf(&input).unwrap();
    assert_eq!(parsed.frame_type(), 3);
    assert_eq!(parsed.security_enabled(), 0);
    assert_eq!(parsed.frame_pending(), 0);
    assert_eq!(parsed.acknowledge_request(), 0);
    assert_eq!(parsed.pan_id_compression(), 0);
    assert_eq!(parsed.reserved(), 0);
    assert_eq!(parsed.sequence_number_supression(), 0);
    assert_eq!(parsed.information_elements_present(), 0);
    assert_eq!(parsed.destination_addressing_mode(), 2);
    assert_eq!(parsed.frame_version(), 0);
    assert_eq!(parsed.source_addressing_mode(), 0);

    // Link status
    let input: [u8; 2] = [0x41, 0x88];
    let (parsed, _) = FrameControl::parse_from_buf(&input).unwrap();
    assert_eq!(parsed.frame_type(), 1);
    assert_eq!(parsed.security_enabled(), 0);
    assert_eq!(parsed.frame_pending(), 0);
    assert_eq!(parsed.acknowledge_request(), 0);
    assert_eq!(parsed.pan_id_compression(), 1);
    assert_eq!(parsed.reserved(), 0);
    assert_eq!(parsed.sequence_number_supression(), 0);
    assert_eq!(parsed.information_elements_present(), 0);
    assert_eq!(parsed.destination_addressing_mode(), 2);
    assert_eq!(parsed.frame_version(), 0);
    assert_eq!(parsed.source_addressing_mode(), 2);

    // Beacon
    let input: [u8; 2] = [0x00, 0x80];
    let (parsed, _) = FrameControl::parse_from_buf(&input).unwrap();
    assert_eq!(parsed.frame_type(), 0);
    assert_eq!(parsed.security_enabled(), 0);
    assert_eq!(parsed.frame_pending(), 0);
    assert_eq!(parsed.acknowledge_request(), 0);
    assert_eq!(parsed.pan_id_compression(), 0);
    assert_eq!(parsed.reserved(), 0);
    assert_eq!(parsed.sequence_number_supression(), 0);
    assert_eq!(parsed.information_elements_present(), 0);
    assert_eq!(parsed.destination_addressing_mode(), 0);
    assert_eq!(parsed.frame_version(), 0);
    assert_eq!(parsed.source_addressing_mode(), 2);
}

#[test]
fn frame_control_parse_needs_two_bytes() {
    let input: [u8; 1] = [0x03];
    assert!(FrameControl::parse_from_buf(&input).is_err());
}
