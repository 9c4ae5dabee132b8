//! Zigbee identifiers and the APS layer.
pub mod aps;

use crate::parse_serialize::{le16, push_le16};
use vstd::prelude::*;

verus! {

/// A cluster identifier.
#[derive(Eq, PartialEq, Structural, Copy, Clone, Debug)]
pub struct ClusterId(pub u16);

/// A profile identifier.
#[derive(Eq, PartialEq, Structural, Copy, Clone, Debug)]
pub struct ProfileId(pub u16);

/// An endpoint identifier.
#[derive(Eq, PartialEq, Structural, Copy, Clone, Debug)]
pub struct EndpointId(pub u8);

/// A group identifier.
#[derive(Eq, PartialEq, Structural, Copy, Clone, Debug)]
pub struct GroupId(pub u16);

impl ClusterId {
    /// Appends the identifier, little endian.
    pub fn serialize_to(&self, target: &mut Vec<u8>)
        ensures
            final(target)@ == old(target)@ + le16(self.0),
    {
        push_le16(target, self.0);
    }
}

impl ProfileId {
    /// Appends the identifier, little endian.
    pub fn serialize_to(&self, target: &mut Vec<u8>)
        ensures
            final(target)@ == old(target)@ + le16(self.0),
    {
        push_le16(target, self.0);
    }
}

impl EndpointId {
    /// Appends the identifier.
    pub fn serialize_to(&self, target: &mut Vec<u8>)
        ensures
            final(target)@ == old(target)@.push(self.0),
    {
        target.push(self.0);
    }
}

impl GroupId {
    /// Appends the identifier, little endian.
    pub fn serialize_to(&self, target: &mut Vec<u8>)
        ensures
            final(target)@ == old(target)@ + le16(self.0),
    {
        push_le16(target, self.0);
    }
}

} // verus!
