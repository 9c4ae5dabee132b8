use futures::channel::oneshot;
use zigbee_mac::radio_bridge::raw_service;
use zigbee_mac::radio_bridge::raw_service::{
    classify_incoming_command, Dispatcher, IncomingEvent, IncomingPacket, RequestCommand,
};
use zigbee_mac::radio_bridge::serial_protocol::{find_subsequence, Codec, Command};
use zigbee_mac::radio_bridge::service::{
    get_object_request, get_value_request, long_address_of, parse_get_object_response,
    parse_get_value_response, parse_status_response, set_pending_data_ext_request,
    set_pending_data_short_request, set_value_request, Error, FromToRadioValue, RadioParam,
    RadioRxMode,
};

#[test]
fn test_radio_rx_mode_tofrom() {
    let input: u16 = 0;
    let parsed = RadioRxMode::from_radio_value(input).unwrap();
    assert_eq!(
        RadioRxMode {
            address_filter: false,
            autoack: false,
            poll_mode: false
        },
        parsed
    );
    assert_eq!(parsed.to_radio_value().unwrap(), input);

    let input: u16 = 1;
    let parsed = RadioRxMode::from_radio_value(input).unwrap();
    assert_eq!(
        RadioRxMode {
            address_filter: true,
            autoack: false,
            poll_mode: false
        },
        parsed
    );
    assert_eq!(parsed.to_radio_value().unwrap(), input);

    let input: u16 = 2;
    let parsed = RadioRxMode::from_radio_value(input).unwrap();
    assert_eq!(
        RadioRxMode {
            address_filter: false,
            autoack: true,
            poll_mode: false
        },
        parsed
    );
    assert_eq!(parsed.to_radio_value().unwrap(), input);

    let input: u16 = 4;
    let parsed = RadioRxMode::from_radio_value(input).unwrap();
    assert_eq!(
        RadioRxMode {
            address_filter: false,
            autoack: false,
            poll_mode: true
        },
        parsed
    );
    assert_eq!(parsed.to_radio_value().unwrap(), input);

    let input: u16 = 7;
    let parsed = RadioRxMode::from_radio_value(input).unwrap();
    assert_eq!(
        RadioRxMode {
            address_filter: true,
            autoack: true,
            poll_mode: true
        },
        parsed
    );
    assert_eq!(parsed.to_radio_value().unwrap(), input);
}

#[test]
fn radio_rx_mode_rejects_high_bits() {
    assert!(matches!(RadioRxMode::from_radio_value(8), Err(Error::Unsupported)));
    assert!(matches!(bool::from_radio_value(2), Err(Error::Unsupported)));
    assert!(bool::from_radio_value(1).unwrap());
    assert_eq!(u16::from_radio_value(0x1234).unwrap(), 0x1234);
}

#[test]
fn codec_decodes_after_garbage_and_in_pieces() {
    let mut codec = Codec::new();
    let mut buf: Vec<u8> = vec![0x01, 0x02, b'Z', b'P', b'B', 0x80, 0x12, 0x34, 0x00];
    // The length is incomplete: nothing yet.
    assert_eq!(codec.decode(&mut buf), None);
    assert_eq!(buf, vec![0x00]);
    buf.extend_from_slice(&[0x02, 0xAA, 0xBB, 0xCC]);
    let cmd = codec.decode(&mut buf).unwrap();
    assert_eq!(cmd.command_id, 0x80);
    assert_eq!(cmd.request_id, 0x1234);
    assert_eq!(cmd.data, vec![0xAA, 0xBB]);
    assert_eq!(buf, vec![0xCC]);
}

#[test]
fn codec_keeps_last_three_bytes_without_prefix() {
    let mut codec = Codec::new();
    let mut buf: Vec<u8> = vec![1, 2, 3, 4, 5, b'Z', b'P'];
    assert_eq!(codec.decode(&mut buf), None);
    assert_eq!(buf, vec![5, b'Z', b'P']);
}

#[test]
fn codec_encode_decode_roundtrip() {
    let mut codec = Codec::new();
    let cmd = Command {
        command_id: 7,
        request_id: 0xBEEF,
        data: vec![1, 2, 3],
    };
    let mut buf = Vec::new();
    codec.encode(cmd.clone(), &mut buf);
    assert_eq!(buf, vec![b'Z', b'P', b'B', 7, 0xBE, 0xEF, 0x00, 0x03, 1, 2, 3]);
    let decoded = codec.decode(&mut buf).unwrap();
    assert_eq!(decoded, cmd);
    assert!(buf.is_empty());
}

#[test]
fn find_subsequence_examples() {
    assert_eq!(find_subsequence(b"abcabc", b"ca"), Some(2));
    assert_eq!(find_subsequence(b"abc", b"abcd"), None);
    assert_eq!(find_subsequence(b"xxZPB", b"ZPB"), Some(2));
}

#[test]
fn request_command_ids() {
    assert_eq!(RequestCommand::RadioPrepare.command_id(), 0);
    assert_eq!(RequestCommand::RadioSetObject.command_id(), 9);
    assert_eq!(RequestCommand::RadioSetPending.command_id(), 11);
}

#[test]
fn incoming_commands_are_classified() {
    let ev = classify_incoming_command(Command {
        command_id: 0xC0,
        request_id: 0,
        data: vec![9, 8, 7, 0x40, 0x99],
    });
    assert_eq!(
        ev,
        IncomingEvent::Packet(IncomingPacket {
            packet: vec![9, 8, 7],
            rssi: 0x40,
            link_quality: 0x99
        })
    );
    let ev = classify_incoming_command(Command {
        command_id: 0x80,
        request_id: 5,
        data: vec![1],
    });
    assert_eq!(ev, IncomingEvent::Resolve(5, vec![1]));
    let ev = classify_incoming_command(Command {
        command_id: 0xC0,
        request_id: 0,
        data: vec![1, 2],
    });
    assert_eq!(ev, IncomingEvent::PacketWithoutPostfix);
    let ev = classify_incoming_command(Command {
        command_id: 0x33,
        request_id: 0,
        data: vec![],
    });
    assert_eq!(ev, IncomingEvent::Unexpected(0x33));
}

#[test]
fn dispatcher_counts_up_and_forgets() {
    let mut d: Dispatcher<&str> = Dispatcher::new();
    assert_eq!(d.new_request("a"), 0);
    assert_eq!(d.new_request("b"), 1);
    assert_eq!(d.take(0), Some("a"));
    assert_eq!(d.take(0), None);
    assert_eq!(d.take(1), Some("b"));
}

#[test]
fn service_requests_and_replies() {
    assert_eq!(get_value_request(RadioParam::Channel), vec![0, 1]);
    assert_eq!(set_value_request(RadioParam::RxMode, 7), vec![0, 4, 0, 7]);
    assert_eq!(get_object_request(RadioParam::LongAddress, 8), vec![0, 11, 0, 8]);
    assert_eq!(
        set_pending_data_ext_request(3, Some(0x0102030405060708)),
        vec![0x83, 8, 7, 6, 5, 4, 3, 2, 1]
    );
    assert_eq!(set_pending_data_ext_request(3, None), vec![0x83]);
    assert_eq!(
        set_pending_data_short_request(0x85, Some((0x1234, 0xABCD))),
        vec![0x05, 0x34, 0x12, 0xCD, 0xAB]
    );
    assert!(parse_status_response(Ok(vec![0, 0]), 0).is_ok());
    assert!(parse_status_response(Ok(vec![0, 1]), 1).is_ok());
    assert!(matches!(parse_status_response(Ok(vec![0, 2]), 0), Err(Error::ErrorCode(2))));
    assert!(matches!(parse_status_response(Ok(vec![0]), 0), Err(Error::UnexpectedResponseSize)));
    assert_eq!(parse_get_value_response(Ok(vec![0, 0, 0x12, 0x34])).unwrap(), 0x1234);
    assert!(matches!(parse_get_value_response(Ok(vec![0, 0, 0x12])), Err(Error::UnexpectedResponseSize)));
    let object = parse_get_object_response(Ok(vec![0, 0, 1, 2, 3, 4, 5, 6, 7, 8]), 8).unwrap();
    assert_eq!(long_address_of(&object), 0x0102030405060708);
    assert!(matches!(parse_get_object_response(Ok(vec![0, 0, 1]), 8), Err(Error::UnexpectedResponseSize)));
}

#[test]
fn dispatcher_resolves_and_rejects_requests() {
    let mut d: Dispatcher<oneshot::Sender<Result<Vec<u8>, raw_service::Error>>> = Dispatcher::new();
    let (sender, mut receiver) = oneshot::channel();
    let id = d.new_request(sender);
    match d.resolve(id, vec![1, 2]) {
        Some((channel, reply)) => {
            assert!(matches!(&reply, Ok(data) if data == &vec![1, 2]));
            assert!(channel.send(reply).is_ok());
        }
        None => panic!("request not in flight"),
    }
    match receiver.try_recv() {
        Ok(Some(Ok(data))) => assert_eq!(data, vec![1, 2]),
        other => panic!("unexpected {:?}", other),
    }
    assert!(d.resolve(id, vec![3]).is_none());

    let (sender, mut receiver) = oneshot::channel();
    let id = d.new_request(sender);
    match d.reject(id, vec![0xEE]) {
        Some((channel, reply)) => assert!(channel.send(reply).is_ok()),
        None => panic!("request not in flight"),
    }
    match receiver.try_recv() {
        Ok(Some(Err(raw_service::Error::BridgeError(data)))) => assert_eq!(data, vec![0xEE]),
        other => panic!("unexpected {:?}", other),
    }
    assert!(d.reject(id, vec![]).is_none());
}

/// Feeds `stream` to a codec in chunks of `chunk` bytes, decoding after each
/// chunk while at least three bytes are buffered; gives the commands.
fn decode_in_chunks(stream: &[u8], chunk: usize) -> Vec<Command> {
    let mut codec = Codec::new();
    let mut buf: Vec<u8> = Vec::new();
    let mut commands = Vec::new();
    for piece in stream.chunks(chunk) {
        buf.extend_from_slice(piece);
        while buf.len() >= 3 {
            match codec.decode(&mut buf) {
                Some(c) => commands.push(c),
                None => break,
            }
        }
    }
    commands
}

#[test]
fn codec_decodes_the_same_however_the_input_is_split() {
    let mut codec = Codec::new();
    let mut stream: Vec<u8> = vec![0x01, 0x5A, 0x50];
    codec.encode(Command { command_id: 0x80, request_id: 0x0102, data: vec![9, 8, 7] }, &mut stream);
    codec.encode(Command { command_id: 0xC0, request_id: 7, data: vec![1] }, &mut stream);
    stream.extend_from_slice(&[0x42, 0x00, 0x11]);
    let whole = decode_in_chunks(&stream, stream.len());
    assert_eq!(whole.len(), 2);
    assert_eq!(whole[0], Command { command_id: 0x80, request_id: 0x0102, data: vec![9, 8, 7] });
    assert_eq!(whole[1], Command { command_id: 0xC0, request_id: 7, data: vec![1] });
    for chunk in 1..stream.len() {
        assert_eq!(decode_in_chunks(&stream, chunk), whole);
    }
}
