//! Parts of APS frames (Zigbee specification 2.2.5).
use crate::parse_serialize::{extend_from, le16, take_all};
use crate::zigbee::{EndpointId, GroupId};
use vstd::prelude::*;

verus! {

/// The payload of an APS frame: all remaining bytes.
#[derive(Debug, Clone, PartialEq, Eq)]
pub struct Payload(pub Vec<u8>);

impl Payload {
    /// Appends the payload bytes.
    pub fn serialize_to(&self, target: &mut Vec<u8>)
        ensures
            final(target)@ == old(target)@ + self.0@,
    {
        extend_from(target, self.0.as_slice());
    }

    /// Takes all of `input` as the payload; nothing is left.
    pub fn deserialize(input: &[u8]) -> (r: (&[u8], Payload))
        ensures
            r.1.0@ == input@,
            r.0@.len() == 0,
    {
        let payload = take_all(input);
        let (_, end) = input.split_at(input.len());
        (end, Payload(payload))
    }
}

/// The extended header of an APS frame; it has no fields yet and encodes to
/// nothing.
#[derive(Eq, PartialEq, Structural, Debug, Clone, Copy)]
pub struct ExtendedHeader {}

impl ExtendedHeader {
    /// Appends nothing.
    pub fn serialize_to(&self, target: &mut Vec<u8>)
        ensures
            final(target)@ == old(target)@,
    {
    }
}

/// The destination of a data frame: an endpoint or a group.
#[derive(Debug, PartialEq, Eq, Structural, Copy, Clone)]
pub enum EndpointOrGroup {
    Endpoint(EndpointId),
    Group(GroupId),
}

impl EndpointOrGroup {
    /// Appends the endpoint (one byte) or the group (two bytes, little endian).
    pub fn serialize_to(&self, target: &mut Vec<u8>)
        ensures
            final(target)@ == old(target)@ + match *self {
                EndpointOrGroup::Endpoint(e) => seq![e.0],
                EndpointOrGroup::Group(g) => le16(g.0),
            },
    {
        match self {
            EndpointOrGroup::Endpoint(e) => {
                e.serialize_to(target);
                assert(final(target)@ =~= old(target)@ + seq![e.0]);
            },
            EndpointOrGroup::Group(g) => g.serialize_to(target),
        }
    }

    /// Whether the destination is a group.
    pub fn serialize_tag(&self) -> (r: bool)
        ensures
            r == (*self is Group),
    {
        match self {
            EndpointOrGroup::Endpoint(_) => false,
            EndpointOrGroup::Group(_) => true,
        }
    }
}

/// The delivery mode field (2.2.5.1.1.2).
#[derive(Debug, PartialEq, Eq, Structural, Copy, Clone)]
pub enum DeliveryMode {
    Unicast,
    Reserved,
    Broadcast,
    Group,
}

impl DeliveryMode {
    /// The value of the field.
    pub fn value(&self) -> (r: u8)
        ensures
            r == match *self {
                DeliveryMode::Unicast => 0u8,
                DeliveryMode::Reserved => 1u8,
                DeliveryMode::Broadcast => 2u8,
                DeliveryMode::Group => 3u8,
            },
    {
        match self {
            DeliveryMode::Unicast => 0,
            DeliveryMode::Reserved => 1,
            DeliveryMode::Broadcast => 2,
            DeliveryMode::Group => 3,
        }
    }
}

/// Where a data frame goes.
#[derive(Debug, PartialEq, Eq, Structural, Copy, Clone)]
pub enum DataDestination {
    Unicast(EndpointId),
    Broadcast(EndpointId),
    Group(GroupId),
}

impl DataDestination {
    /// The delivery mode that carries this destination.
    pub fn delivery_mode(&self) -> (r: DeliveryMode)
        ensures
            r == match *self {
                DataDestination::Unicast(_) => DeliveryMode::Unicast,
                DataDestination::Broadcast(_) => DeliveryMode::Broadcast,
                DataDestination::Group(_) => DeliveryMode::Group,
            },
    {
        match self {
            DataDestination::Unicast(_) => DeliveryMode::Unicast,
            DataDestination::Broadcast(_) => DeliveryMode::Broadcast,
            DataDestination::Group(_) => DeliveryMode::Group,
        }
    }
}

} // verus!
