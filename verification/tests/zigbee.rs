use zigbee_mac::zigbee::aps::frame::{
    DataDestination, DeliveryMode, EndpointOrGroup, ExtendedHeader, Payload,
};
use zigbee_mac::zigbee::{ClusterId, EndpointId, GroupId, ProfileId};

#[test]
fn zigbee_ids_serialize_little_endian() {
    let mut out = Vec::new();
    ClusterId(0x0102).serialize_to(&mut out);
    ProfileId(0x0304).serialize_to(&mut out);
    EndpointId(5).serialize_to(&mut out);
    GroupId(0x0607).serialize_to(&mut out);
    ExtendedHeader {}.serialize_to(&mut out);
    assert_eq!(out, vec![0x02, 0x01, 0x04, 0x03, 5, 0x07, 0x06]);
}

#[test]
fn aps_parts() {
    let mut out = Vec::new();
    EndpointOrGroup::Group(GroupId(0x1234)).serialize_to(&mut out);
    EndpointOrGroup::Endpoint(EndpointId(9)).serialize_to(&mut out);
    assert_eq!(out, vec![0x34, 0x12, 9]);
    assert!(EndpointOrGroup::Group(GroupId(1)).serialize_tag());
    assert!(!EndpointOrGroup::Endpoint(EndpointId(1)).serialize_tag());
    assert_eq!(DeliveryMode::Group.value(), 3);
    assert_eq!(DataDestination::Broadcast(EndpointId(1)).delivery_mode(), DeliveryMode::Broadcast);
    let (rest, payload) = Payload::deserialize(&[1, 2, 3]);
    assert!(rest.is_empty());
    assert_eq!(payload, Payload(vec![1, 2, 3]));
    let mut out = Vec::new();
    payload.serialize_to(&mut out);
    assert_eq!(out, vec![1, 2, 3]);
}
