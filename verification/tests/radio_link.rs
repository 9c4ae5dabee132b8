use zigbee_mac::radio::link::{MessageOutcome, ResponseParsers};
use zigbee_mac::radio::raw::{RawRadioCommand, RawRadioMessage};
use zigbee_mac::radio::{RadioError, RadioRequest, RadioResponse};
use zigbee_mac::unique_key::UniqueKey;

#[test]
fn request_is_started_under_a_free_identifier_only() {
    let mut parsers = ResponseParsers::new();
    let key = UniqueKey::new();
    let message = parsers.start_request(7, RadioRequest::SetPower(key, true)).unwrap();
    assert_eq!(message.command_id, RawRadioCommand::On);
    assert_eq!(message.request_id, 7);
    assert!(message.data.is_empty());
    assert!(parsers.is_waiting(7));
    match parsers.start_request(7, RadioRequest::SendPacket(key, vec![1, 2])) {
        Err(RadioRequest::SendPacket(k, data)) => {
            assert_eq!(k, key);
            assert_eq!(data, vec![1, 2]);
        }
        other => panic!("unexpected {:?}", other),
    }
}

#[test]
fn reply_is_parsed_by_its_request_parser() {
    let mut parsers = ResponseParsers::new();
    let key = UniqueKey::new();
    parsers.start_request(3, RadioRequest::SetPower(key, true)).unwrap();
    let reply = RawRadioMessage { command_id: RawRadioCommand::OkReply, request_id: 3, data: vec![0, 0, 0, 0] };
    match parsers.handle_message(reply) {
        MessageOutcome::Response(RadioResponse::SetPower(k, true, Ok(()))) => assert_eq!(k, key),
        other => panic!("unexpected {:?}", other),
    }
    assert!(!parsers.is_waiting(3));
    // The identifier is free again: a second reply finds no request.
    let reply = RawRadioMessage { command_id: RawRadioCommand::OkReply, request_id: 3, data: vec![0, 0, 0, 0] };
    match parsers.handle_message(reply) {
        MessageOutcome::UnknownRequest(3) => {}
        other => panic!("unexpected {:?}", other),
    }
}

#[test]
fn failed_status_and_error_replies() {
    let mut parsers = ResponseParsers::new();
    let key = UniqueKey::new();
    parsers.start_request(1, RadioRequest::SendPacket(key, vec![9])).unwrap();
    let reply = RawRadioMessage { command_id: RawRadioCommand::OkReply, request_id: 1, data: vec![0, 5, 7] };
    match parsers.handle_message(reply) {
        MessageOutcome::Response(RadioResponse::SendPacket(k, Err(RadioError::RetvalError(5, rest)))) => {
            assert_eq!(k, key);
            assert_eq!(rest, vec![7]);
        }
        other => panic!("unexpected {:?}", other),
    }
    parsers.start_request(2, RadioRequest::InitPendingDataTable(key)).unwrap();
    let reply = RawRadioMessage { command_id: RawRadioCommand::ErrReply, request_id: 2, data: vec![0xEE] };
    match parsers.handle_message(reply) {
        MessageOutcome::Response(RadioResponse::InitPendingDataTable(k, Err(RadioError::RawError(d)))) => {
            assert_eq!(k, key);
            assert_eq!(d, vec![0xEE]);
        }
        other => panic!("unexpected {:?}", other),
    }
}

#[test]
fn other_messages() {
    let mut parsers = ResponseParsers::new();
    let err = RawRadioMessage { command_id: RawRadioCommand::ErrReply, request_id: 9, data: vec![] };
    assert!(matches!(parsers.handle_message(err), MessageOutcome::Ignored));
    let packet = RawRadioMessage { command_id: RawRadioCommand::OnPacket, request_id: 0, data: vec![1] };
    assert!(matches!(parsers.handle_message(packet), MessageOutcome::Ignored));
    let request = RawRadioMessage { command_id: RawRadioCommand::GetValue, request_id: 0, data: vec![] };
    assert!(matches!(
        parsers.handle_message(request),
        MessageOutcome::Unexpected(RawRadioCommand::GetValue)
    ));
}
