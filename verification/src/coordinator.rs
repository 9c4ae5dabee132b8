//! The decisions of a coordinator that starts a PAN and admits devices.
//!
//! Normal startup (6.3.3.1 of IEEE Std 802.15.4-2015) is an MLME-RESET with
//! the default PIB, then an MLME-START as PAN coordinator. After that the
//! coordinator answers each beacon request with a beacon, and each
//! association request with an address and a first network frame sent
//! indirectly to the new device.
use crate::ieee802154::mac::data::DataService;
use crate::ieee802154::mac::frame::{Address, AddressingMode, FrameView, FullAddress};
use crate::ieee802154::mac::management::mlme_request_outcome;
use crate::ieee802154::pib::{PIBProperty, PIBValue, PIBView};
use crate::ieee802154::services::{mcps, mlme};
use crate::ieee802154::{ShortAddress, PANID};
use vstd::prelude::*;

verus! {

/// The PAN the coordinator starts.
pub const COORDINATOR_PAN_ID: u16 = 0x1234;

/// The channel the coordinator works on.
pub const COORDINATOR_CHANNEL: u16 = 25;

/// The short address given to a device that associates.
pub const ASSIGNED_ADDRESS: u16 = 0x4567;

/// What the main loop hears from the MAC.
#[derive(Debug)]
pub enum MainloopInput {
    Mlme(mlme::Output),
    Mcps(mcps::Output),
}

/// What the main loop hands to the MAC.
#[derive(Debug)]
pub enum MainloopAction {
    MlmeRequest(mlme::Request),
    MlmeResponse(mlme::Response),
    McpsRequest(mcps::Request),
}

/// The beacon payload the coordinator advertises.
pub open spec fn beacon_payload() -> Seq<u8> {
    seq![0x00u8, 0x22, 0x84, 0x15, 0x68, 0x89, 0x0e, 0x00, 0x4b, 0x12, 0x00, 0xFF, 0xFF, 0xFF, 0x00]
}

/// The network header of the frame sent to a device that associated: frame
/// control, destination (the new address), source (the coordinator), radius
/// and sequence number.
pub open spec fn association_nwk_header() -> Seq<u8> {
    seq![0x48u8, 0x00, 0x67, 0x45, 0x00, 0x00, 0x1E, 0x28]
}

/// The application support header and payload of that frame.
pub open spec fn association_aps_frame() -> Seq<u8> {
    seq![
        0x21u8, 0x06, 0x10, 0x01, 0x00, 0x00, 0x00, 0xe3, 0xbd, 0x18, 0x74, 0x09, 0x2c,
        0x2c, 0xa3, 0x58, 0x1d, 0x8a, 0x23, 0xb9, 0x6c, 0x3b, 0x80, 0xf0, 0xad, 0x27,
        0x1c, 0x59, 0x8a, 0xdf, 0x27, 0xbc, 0x21, 0xc7, 0x47, 0xf0, 0x31, 0x74, 0x80,
        0xbc, 0x8c, 0x53, 0x88, 0x11, 0x8f, 0x02,
    ]
}

/// Whether `r` is an MLME-SET of `attribute` to `value`.
pub open spec fn sets(r: mlme::Request, attribute: PIBProperty, value: PIBValue) -> bool {
    r matches mlme::Request::SetAttribute(s) && s.attribute == attribute && s.value == value
}

/// Whether `r` is an MLME-SET of `attribute` to a blob holding `bytes`.
pub open spec fn sets_blob(r: mlme::Request, attribute: PIBProperty, bytes: Seq<u8>) -> bool {
    match r {
        mlme::Request::SetAttribute(s) => s.attribute == attribute && match s.value {
            PIBValue::Blob(b) => b@ == bytes,
            _ => false,
        },
        _ => false,
    }
}

/// The MLME-START that makes the coordinator a PAN coordinator without
/// beacons.
pub open spec fn start_request() -> mlme::StartRequest {
    mlme::StartRequest {
        pan_id: PANID(COORDINATOR_PAN_ID),
        channel_number: COORDINATOR_CHANNEL,
        channel_page: 0,
        start_time: 0,
        beacon_order: 15,
        superframe_order: 15,
        pan_coordinator: true,
        battery_life_extension: false,
    }
}

/// The requests that start the PAN, in order: reset to the default PIB; set
/// the channel, permit association, take short address 0, set the beacon
/// payload, answer beacon requests; start.
pub open spec fn is_startup_sequence(r: Seq<mlme::Request>) -> bool {
    &&& r.len() == 7
    &&& r[0] == mlme::Request::Reset(mlme::ResetRequest { set_default_pib: true })
    &&& sets(r[1], PIBProperty::PhyCurrentChannel, PIBValue::U16(COORDINATOR_CHANNEL))
    &&& sets(r[2], PIBProperty::MacAssociationPermit, PIBValue::Bool(true))
    &&& sets(r[3], PIBProperty::MacShortAddress, PIBValue::ShortAddress(ShortAddress(0)))
    &&& sets_blob(r[4], PIBProperty::MacBeaconPayload, beacon_payload())
    &&& sets(r[5], PIBProperty::MacBeaconAutoRespond, PIBValue::Bool(true))
    &&& r[6] == mlme::Request::Start(start_request())
}

/// The beacon sent in answer to a beacon request of the given type.
pub open spec fn beacon_answer(beacon_type: mlme::BeaconType) -> mlme::BeaconRequest {
    mlme::BeaconRequest {
        beacon_type,
        channel: COORDINATOR_CHANNEL,
        channel_page: 0,
        superframe_order: 15,
        dst_addr: None,
    }
}

/// Whether `a` sends the first network frame to a device that associated:
/// from its short address, acknowledged, held for the device to poll.
pub open spec fn is_association_data(a: MainloopAction) -> bool {
    match a {
        MainloopAction::McpsRequest(mcps::Request::Data(d)) => {
            &&& d.source_addressing_mode == AddressingMode::Short
            &&& d.destination == Some(
                FullAddress {
                    pan_id: PANID(COORDINATOR_PAN_ID),
                    address: Address::Short(ShortAddress(ASSIGNED_ADDRESS)),
                },
            )
            &&& d.msdu@ == association_nwk_header() + association_aps_frame()
            &&& d.ack_tx
            &&& d.indirect_tx
        },
        _ => false,
    }
}

/// The requests that start the PAN.
pub fn mainloop_startup() -> (r: Vec<mlme::Request>)
    ensures
        is_startup_sequence(r@),
{
    let payload: Vec<u8> = vec![
        0x00, 0x22, 0x84, 0x15, 0x68, 0x89, 0x0e, 0x00, 0x4b, 0x12, 0x00, 0xFF, 0xFF, 0xFF, 0x00,
    ];
    let mut r: Vec<mlme::Request> = Vec::new();
    r.push(mlme::Request::Reset(mlme::ResetRequest { set_default_pib: true }));
    r.push(
        mlme::Request::SetAttribute(
            mlme::SetRequest {
                attribute: PIBProperty::PhyCurrentChannel,
                value: PIBValue::U16(COORDINATOR_CHANNEL),
            },
        ),
    );
    r.push(
        mlme::Request::SetAttribute(
            mlme::SetRequest { attribute: PIBProperty::MacAssociationPermit, value: PIBValue::Bool(true) },
        ),
    );
    r.push(
        mlme::Request::SetAttribute(
            mlme::SetRequest {
                attribute: PIBProperty::MacShortAddress,
                value: PIBValue::ShortAddress(ShortAddress(0)),
            },
        ),
    );
    r.push(
        mlme::Request::SetAttribute(
            mlme::SetRequest { attribute: PIBProperty::MacBeaconPayload, value: PIBValue::Blob(payload) },
        ),
    );
    r.push(
        mlme::Request::SetAttribute(
            mlme::SetRequest { attribute: PIBProperty::MacBeaconAutoRespond, value: PIBValue::Bool(true) },
        ),
    );
    r.push(
        mlme::Request::Start(
            mlme::StartRequest {
                pan_id: PANID(COORDINATOR_PAN_ID),
                channel_number: COORDINATOR_CHANNEL,
                channel_page: 0,
                start_time: 0,
                beacon_order: 15,
                superframe_order: 15,
                pan_coordinator: true,
                battery_life_extension: false,
            },
        ),
    );
    r
}

/// What the coordinator does on one input: a beacon request is answered with
/// a beacon; an association request is granted the assigned short address
/// and followed by the first network frame; anything else is left alone.
pub fn mainloop_step(input: MainloopInput) -> (r: Vec<MainloopAction>)
    ensures
        match input {
            MainloopInput::Mlme(
                mlme::Output::Indication(mlme::Indication::BeaconRequest { beacon_type, .. }),
            ) => r@ == seq![
                MainloopAction::MlmeRequest(mlme::Request::Beacon(beacon_answer(beacon_type))),
            ],
            MainloopInput::Mlme(
                mlme::Output::Indication(
                    mlme::Indication::Associate { device_address, capability_information },
                ),
            ) => {
                &&& r@.len() == 2
                &&& r@[0] == MainloopAction::MlmeResponse(
                    mlme::Response::Associate {
                        device_address,
                        fast_association: capability_information.fast_association,
                        status: Ok(Some(ShortAddress(ASSIGNED_ADDRESS))),
                    },
                )
                &&& is_association_data(r@[1])
            },
            _ => r@.len() == 0,
        },
{
    let mut r: Vec<MainloopAction> = Vec::new();
    match input {
        MainloopInput::Mlme(
            mlme::Output::Indication(mlme::Indication::BeaconRequest { beacon_type, .. }),
        ) => {
            let request = mlme::BeaconRequest {
                beacon_type,
                channel: COORDINATOR_CHANNEL,
                channel_page: 0,
                superframe_order: 15,
                dst_addr: None,
            };
            r.push(MainloopAction::MlmeRequest(mlme::Request::Beacon(request)));
        },
        MainloopInput::Mlme(
            mlme::Output::Indication(
                mlme::Indication::Associate { device_address, capability_information },
            ),
        ) => {
            let address = ShortAddress(ASSIGNED_ADDRESS);
            let mut data: Vec<u8> = vec![0x48, 0x00, 0x67, 0x45, 0x00, 0x00, 0x1E, 0x28];
            let mut aps_frame: Vec<u8> = vec![
                0x21, 0x06, 0x10, 0x01, 0x00, 0x00, 0x00, 0xe3, 0xbd, 0x18, 0x74, 0x09, 0x2c,
                0x2c, 0xa3, 0x58, 0x1d, 0x8a, 0x23, 0xb9, 0x6c, 0x3b, 0x80, 0xf0, 0xad, 0x27,
                0x1c, 0x59, 0x8a, 0xdf, 0x27, 0xbc, 0x21, 0xc7, 0x47, 0xf0, 0x31, 0x74, 0x80,
                0xbc, 0x8c, 0x53, 0x88, 0x11, 0x8f, 0x02,
            ];
            data.append(&mut aps_frame);
            r.push(
                MainloopAction::MlmeResponse(
                    mlme::Response::Associate {
                        device_address,
                        fast_association: capability_information.fast_association,
                        status: Ok(Some(address)),
                    },
                ),
            );
            r.push(
                MainloopAction::McpsRequest(
                    mcps::Request::Data(
                        mcps::DataRequest {
                            source_addressing_mode: AddressingMode::Short,
                            destination: Some(
                                FullAddress { pan_id: PANID(COORDINATOR_PAN_ID), address: Address::Short(address) },
                            ),
                            msdu: data,
                            msdu_handle: mcps::MsduHandle::new(),
                            ack_tx: true,
                            indirect_tx: true,
                        },
                    ),
                ),
            );
        },
        _ => {},
    }
    r
}

/// Whether a confirmation reports success.
pub open spec fn confirms_success(c: Option<mlme::Confirm>) -> bool {
    match c {
        Some(mlme::Confirm::Reset(r)) => r is Ok,
        Some(mlme::Confirm::Start(r)) => r is Ok,
        Some(mlme::Confirm::Beacon(r)) => r is Ok,
        Some(mlme::Confirm::Get(_, r)) => r is Ok,
        Some(mlme::Confirm::SetAttribute(_, r)) => r is Ok,
        None => false,
    }
}

/// The startup requests start the PAN from any state of the MAC: handled
/// in order, each is confirmed as a success, and the device ends as the PAN
/// coordinator of its PAN on its channel, with short address 0, association
/// permitted, beacon requests answered at once and the beacon payload set.
/// `frames`, `pibs` and `data` are the management entity's frames, the PIB
/// and the data service before each request and after the last one;
/// `confirms` are the confirmations given.
pub proof fn lemma_startup_starts_pan(
    requests: Seq<mlme::Request>,
    frames: Seq<Seq<FrameView>>,
    pibs: Seq<PIBView>,
    data: Seq<DataService>,
    confirms: Seq<Option<mlme::Confirm>>,
)
    requires
        is_startup_sequence(requests),
        frames.len() == 8,
        pibs.len() == 8,
        data.len() == 8,
        confirms.len() == 7,
        forall|i: int|
            0 <= i < 7 ==> mlme_request_outcome(
                frames[i],
                pibs[i],
                data[i],
                requests[i],
                frames[i + 1],
                pibs[i + 1],
                data[i + 1],
                #[trigger] confirms[i],
            ),
    ensures
        forall|i: int| 0 <= i < 7 ==> confirms_success(#[trigger] confirms[i]),
        pibs[7].mac_extended_address == pibs[0].mac_extended_address,
        pibs[7].mac_pan_id == PANID(COORDINATOR_PAN_ID),
        pibs[7].phy_current_channel == COORDINATOR_CHANNEL,
        pibs[7].mac_short_address == ShortAddress(0),
        pibs[7].mac_associated_pan_coord == Some((pibs[0].mac_extended_address, ShortAddress(0))),
        pibs[7].mac_association_permit,
        pibs[7].mac_beacon_auto_respond,
        pibs[7].mac_beacon_payload == beacon_payload(),
{
    // Each step's outcome is instantiated by naming its confirmation.
    let steps = seq![confirms[0], confirms[1], confirms[2], confirms[3], confirms[4], confirms[5], confirms[6]];
    assert(steps.len() == 7);
}

} // verus!
