//! MAC sublayer management entity primitives (8.2).
use crate::ieee802154::mac::commands::{AssociationError, CapabilityInformation};
use crate::ieee802154::mac::frame::FullAddress;
use crate::ieee802154::pib::{PIBProperty, PIBValue};
pub use crate::ieee802154::services::error::Error;
use crate::ieee802154::{ExtendedAddress, ShortAddress, PANID};
use vstd::prelude::*;

verus! {

/// The kind of beacon requested.
#[derive(Debug, Clone, Copy, PartialEq, Eq, Structural)]
pub enum BeaconType {
    Beacon,
    EnhancedBeacon,
}

/// MLME-RESET.request.
#[derive(Debug, Clone, Copy, PartialEq, Eq, Structural)]
pub struct ResetRequest {
    pub set_default_pib: bool,
}

/// MLME-START.request; coordinator realignment, beacon security and
/// information elements are not supported.
#[derive(Debug, Clone, Copy, PartialEq, Eq, Structural)]
pub struct StartRequest {
    pub pan_id: PANID,
    pub channel_number: u16,
    pub channel_page: u16,
    pub start_time: u32,
    pub beacon_order: u8,
    pub superframe_order: u8,
    pub pan_coordinator: bool,
    pub battery_life_extension: bool,
}

/// MLME-BEACON.request.
#[derive(Debug, Clone, Copy, PartialEq, Eq, Structural)]
pub struct BeaconRequest {
    pub beacon_type: BeaconType,
    pub channel: u16,
    pub channel_page: u16,
    pub superframe_order: usize,
    pub dst_addr: Option<FullAddress>,
}

/// MLME-GET.request.
#[derive(Debug, Clone, Copy, PartialEq, Eq, Structural)]
pub struct GetRequest {
    pub attribute: PIBProperty,
}

/// MLME-SET.request.
#[derive(Debug, PartialEq)]
pub struct SetRequest {
    pub attribute: PIBProperty,
    pub value: PIBValue,
}

/// The requests the MLME accepts.
#[derive(Debug, PartialEq)]
pub enum Request {
    Reset(ResetRequest),
    Start(StartRequest),
    Beacon(BeaconRequest),
    Get(GetRequest),
    SetAttribute(SetRequest),
}

/// The confirmations the MLME gives.
#[derive(Debug, PartialEq)]
pub enum Confirm {
    Reset(Result<(), Error>),
    Start(Result<(), Error>),
    Beacon(Result<(), Error>),
    Get(PIBProperty, Result<PIBValue, Error>),
    SetAttribute(PIBProperty, Result<(), Error>),
}

/// The indications the MLME gives.
#[derive(Debug, Clone, Copy, PartialEq, Eq, Structural)]
pub enum Indication {
    BeaconRequest { beacon_type: BeaconType, src_addr: Option<FullAddress>, dst_pan_id: PANID },
    Associate { device_address: ExtendedAddress, capability_information: CapabilityInformation },
}

/// The responses the MLME accepts.
#[derive(Debug, Clone, Copy, PartialEq, Eq)]
pub enum Response {
    Associate {
        device_address: ExtendedAddress,
        fast_association: bool,
        status: Result<Option<ShortAddress>, AssociationError>,
    },
}

/// What is handed to the MLME.
#[derive(Debug, PartialEq)]
pub enum Input {
    Request(Request),
    Response(Response),
}

/// What the MLME hands out.
#[derive(Debug, PartialEq)]
pub enum Output {
    Confirm(Confirm),
    Indication(Indication),
}

} // verus!
