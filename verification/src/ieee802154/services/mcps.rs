//! MAC common part sublayer data primitives (8.3).
use crate::ieee802154::mac::frame::{AddressingMode, FullAddress};
use crate::unique_key::UniqueKey;
use vstd::prelude::*;

verus! {

/// Identifies one MSDU across request, confirmation and purge.
#[derive(PartialEq, Eq, Hash, Debug, Clone, Copy)]
pub struct MsduHandle(UniqueKey);

impl MsduHandle {
    /// A handle no other handle equals.
    pub fn new() -> (r: Self) {
        Self(UniqueKey::new())
    }

    /// Whether two handles are the same handle.
    pub fn same(&self, other: &MsduHandle) -> (r: bool)
        ensures
            r == (*self == *other),
    {
        self.0.same(&other.0)
    }
}

/// Failures of the data service.
#[derive(Debug, Clone, Copy, PartialEq, Eq, Structural)]
pub enum McpsError {
    InvalidHandle,
}

/// MCPS-DATA.request.
#[derive(Debug, PartialEq)]
pub struct DataRequest {
    pub source_addressing_mode: AddressingMode,
    pub destination: Option<FullAddress>,
    pub msdu: Vec<u8>,
    pub msdu_handle: MsduHandle,
    pub ack_tx: bool,
    pub indirect_tx: bool,
}

/// MCPS-DATA.confirm.
#[derive(Debug, PartialEq)]
pub struct DataConfirm {
    pub msdu_handle: MsduHandle,
    pub ack_payload: Result<Vec<u8>, McpsError>,
}

/// MCPS-DATA.indication.
#[derive(Debug, PartialEq)]
pub struct DataIndication {
    pub source: Option<FullAddress>,
    pub destination: Option<FullAddress>,
    pub msdu: Vec<u8>,
    pub mpdu_link_quality: u8,
    pub dsn: Option<u8>,
    pub rssi: u8,
}

/// MCPS-PURGE.request.
#[derive(Debug, Clone, Copy, PartialEq, Eq)]
pub struct PurgeRequest {
    pub msdu_handle: MsduHandle,
}

/// MCPS-PURGE.confirm.
#[derive(Debug, Clone, Copy, PartialEq, Eq)]
pub struct PurgeConfirm {
    pub msdu_handle: MsduHandle,
    pub status: Result<(), McpsError>,
}

/// The requests the data service accepts.
#[derive(Debug, PartialEq)]
pub enum Request {
    Data(DataRequest),
    Purge(PurgeRequest),
}

/// The confirmations the data service gives.
#[derive(Debug, PartialEq)]
pub enum Confirm {
    Data(DataConfirm),
    Purge(PurgeConfirm),
}

/// The indications the data service gives.
#[derive(Debug, PartialEq)]
pub enum Indication {
    Data(DataIndication),
}

/// The data service takes no responses: no value of this type can be made.
#[derive(Debug, Clone, Copy, PartialEq, Eq)]
pub enum Response {
    Never(core::convert::Infallible),
}

/// What is handed to the data service.
#[derive(Debug, PartialEq)]
pub enum Input {
    Request(Request),
    Response(Response),
}

/// What the data service hands out.
#[derive(Debug, PartialEq)]
pub enum Output {
    Confirm(Confirm),
    Indication(Indication),
}

} // verus!
