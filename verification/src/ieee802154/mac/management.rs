//! The MAC sublayer management entity: MLME requests and the management
//! frames received (beacon and association requests).
use crate::ieee802154::mac::commands::{CapabilityInformation, Command};
use crate::ieee802154::mac::frame::{
    full_address_of, specification_of, Address, AddressSpecification, Beacon, BeaconView, Frame,
    FrameType, FrameTypeView, FrameView, FullAddress,
};
use crate::ieee802154::mac::data::{fresh_data_service, DataService, DataServiceView};
use crate::ieee802154::pib::{is_fresh_pib, pib_get, pib_set, PIBValue, PIBView, PIB};
use crate::ieee802154::services::mlme;
use crate::ieee802154::{ExtendedAddress, ShortAddress, PANID};
use vstd::prelude::*;

verus! {

/// The management entity: the frames it has produced and not yet handed out.
pub struct ManagementService {
    outgoing: Vec<Frame>,
}

impl View for ManagementService {
    type V = Seq<FrameView>;

    closed spec fn view(&self) -> Seq<FrameView> {
        self.outgoing@.map_values(|f: Frame| f@)
    }
}

/// The device's own address: short when one is assigned, else extended.
pub open spec fn own_short_address(pib: PIBView) -> FullAddress {
    FullAddress {
        pan_id: pib.mac_pan_id,
        address: if pib.mac_short_address != ShortAddress(0xFFFE) {
            Address::Short(pib.mac_short_address)
        } else {
            Address::Extended(pib.mac_extended_address)
        },
    }
}

/// Whether a beacon request can be served: superframe order 15, the current
/// channel, channel page 0.
pub open spec fn beacon_request_valid(pib: PIBView, request: mlme::BeaconRequest) -> bool {
    request.superframe_order == 15 && request.channel == pib.phy_current_channel && request.channel_page == 0
}

/// The beacon frame sent for a beacon request: a beacon of this PAN (the
/// device is PAN coordinator when it is associated with itself) from the
/// device's own address, with the next beacon sequence number.
pub open spec fn beacon_frame(pib: PIBView, request: mlme::BeaconRequest) -> FrameView {
    FrameView {
        frame_pending: false,
        acknowledge_request: false,
        sequence_number: Some(pib.mac_bsn),
        destination: AddressSpecification::NotPresent,
        source: specification_of(Some(own_short_address(pib))),
        frame_type: FrameTypeView::Beacon(
            BeaconView {
                beacon_order: 15,
                superframe_order: request.superframe_order,
                final_cap_slot: 15,
                battery_life_extension: false,
                pan_coordinator: pib.mac_associated_pan_coord == Some(
                    (pib.mac_extended_address, pib.mac_short_address),
                ),
                association_permit: pib.mac_association_permit,
                pending_short_addresses: Seq::empty(),
                pending_long_addresses: Seq::empty(),
                payload: pib.mac_beacon_payload,
            },
        ),
    }
}

/// The PIB after a beacon sequence number was taken.
pub open spec fn bsn_taken(pib: PIBView) -> PIBView {
    PIBView { mac_bsn: ((pib.mac_bsn + 1) % 256) as u8, ..pib }
}

/// Whether a start request can be served: only a non-beacon PAN coordinator
/// starting now on channel page 0 without battery life extension.
pub open spec fn start_request_valid(request: mlme::StartRequest) -> bool {
    &&& request.channel_page == 0
    &&& request.start_time == 0
    &&& request.beacon_order == 15
    &&& request.superframe_order == 15
    &&& request.pan_coordinator
    &&& !request.battery_life_extension
}

/// The PIB after a start request: the channel and PAN identifier are taken,
/// and the device is its own PAN coordinator.
pub open spec fn started_pib(pib: PIBView, request: mlme::StartRequest) -> PIBView {
    PIBView {
        phy_current_channel: request.channel_number,
        mac_pan_id: request.pan_id,
        mac_associated_pan_coord: if request.pan_coordinator {
            Some((pib.mac_extended_address, pib.mac_short_address))
        } else {
            pib.mac_associated_pan_coord
        },
        ..pib
    }
}

/// What an MLME-BEACON.request does: a valid one queues the beacon frame
/// and takes a beacon sequence number; any other is refused with an invalid
/// parameter and changes nothing.
pub open spec fn beacon_outcome(
    s0: Seq<FrameView>,
    p0: PIBView,
    request: mlme::BeaconRequest,
    s1: Seq<FrameView>,
    p1: PIBView,
    r: Result<(), mlme::Error>,
) -> bool {
    if beacon_request_valid(p0, request) {
        r is Ok && s1 == s0.push(beacon_frame(p0, request)) && p1 == bsn_taken(p0)
    } else {
        r == Err::<(), mlme::Error>(mlme::Error::InvalidParameter) && s1 == s0 && p1 == p0
    }
}

/// What an MLME-START.request does: refused without a short address, or
/// with an invalid parameter; else the PIB is started.
pub open spec fn start_outcome(p0: PIBView, request: mlme::StartRequest, p1: PIBView, r: Result<(), mlme::Error>) -> bool {
    if p0.mac_short_address == ShortAddress(0xFFFF) {
        r == Err::<(), mlme::Error>(mlme::Error::NoShortAddress) && p1 == p0
    } else if !start_request_valid(request) {
        r == Err::<(), mlme::Error>(mlme::Error::InvalidParameter) && p1 == p0
    } else {
        r is Ok && p1 == started_pib(p0, request)
    }
}

/// What an MLME-GET.request answers: the attribute's value, or an
/// unsupported attribute.
pub open spec fn get_outcome(p: PIBView, request: mlme::GetRequest, r: Result<PIBValue, mlme::Error>) -> bool {
    match pib_get(p, request.attribute) {
        Ok(v) => r matches Ok(w) && w@ == v,
        Err(()) => r == Err::<PIBValue, mlme::Error>(mlme::Error::UnsupportedAttribute),
    }
}

/// What an MLME-RESET.request does to the PIB: it is reset to its defaults
/// when asked, and left alone otherwise.
pub open spec fn reset_outcome(p0: PIBView, request: mlme::ResetRequest, p1: PIBView) -> bool {
    if request.set_default_pib {
        is_fresh_pib(p1, p0.mac_extended_address, p0.phy_current_channel, p0.phy_tx_power)
    } else {
        p1 == p0
    }
}

/// The PAN identifier a beacon request was sent to: that of its destination,
/// or the broadcast identifier.
pub open spec fn destination_pan_id(frame: FrameView) -> PANID {
    match full_address_of(frame.destination) {
        Some(a) => a.pan_id,
        None => PANID(0xFFFF),
    }
}

/// The indication for an association request: only when association is
/// permitted, the request is addressed to the device's own address, and it
/// comes from an extended address.
pub open spec fn association_indication(
    pib: PIBView,
    frame: FrameView,
    capability_information: CapabilityInformation,
) -> Option<mlme::Indication> {
    if !pib.mac_association_permit {
        None
    } else if full_address_of(frame.destination) != Some(own_short_address(pib)) {
        None
    } else {
        match frame.source {
            AddressSpecification::Extended(_, device_address) => Some(
                mlme::Indication::Associate { device_address, capability_information },
            ),
            _ => None,
        }
    }
}

/// Whether a frame's destination is the device: its PAN id, and its short
/// address, or its extended address when the short address is 0xFFFE.
pub open spec fn addressed_to_device(pib: PIBView, destination: AddressSpecification) -> bool {
    match destination {
        AddressSpecification::Short(pan_id, a) => {
            &&& pan_id == pib.mac_pan_id
            &&& pib.mac_short_address != ShortAddress(0xFFFE)
            &&& a == pib.mac_short_address
        },
        AddressSpecification::Extended(pan_id, a) => {
            &&& pan_id == pib.mac_pan_id
            &&& pib.mac_short_address == ShortAddress(0xFFFE)
            &&& a == pib.mac_extended_address
        },
        AddressSpecification::NotPresent => false,
    }
}

/// An association request is indicated exactly when association is
/// permitted, the request is addressed to the device itself (a request to
/// another PAN or another device is ignored) and it comes from an extended
/// address; the indication names that address and the capabilities asked
/// for.
pub proof fn lemma_association_only_for_me(pib: PIBView, frame: FrameView, capability_information: CapabilityInformation)
    ensures
        association_indication(pib, frame, capability_information) is Some <==> {
            &&& pib.mac_association_permit
            &&& addressed_to_device(pib, frame.destination)
            &&& frame.source is Extended
        },
        frame.source matches AddressSpecification::Extended(_, device_address) ==> (association_indication(
            pib,
            frame,
            capability_information,
        ) is Some ==> association_indication(pib, frame, capability_information) == Some(
            (mlme::Indication::Associate { device_address, capability_information }),
        )),
{
}

/// Whether two optional full addresses are equal.
fn same_full_address(a: Option<FullAddress>, b: Option<FullAddress>) -> (r: bool)
    ensures
        r == (a == b),
{
    match (a, b) {
        (None, None) => true,
        (Some(x), Some(y)) => {
            x.pan_id.0 == y.pan_id.0 && match (x.address, y.address) {
                (Address::Short(s), Address::Short(t)) => s.0 == t.0,
                (Address::Extended(s), Address::Extended(t)) => s.0 == t.0,
                _ => false,
            }
        },
        _ => false,
    }
}

/// Whether the PAN coordinator recorded is the device itself.
fn is_own_coordinator(pib: &PIB) -> (r: bool)
    ensures
        r == (pib.mac_associated_pan_coord == Some((pib.mac_extended_address, pib.mac_short_address))),
{
    match pib.mac_associated_pan_coord {
        Some((e, s)) => e.0 == pib.mac_extended_address.0 && s.0 == pib.mac_short_address.0,
        None => false,
    }
}

/// What handling an MLME request does to the management entity's frames,
/// the PIB and the data service, and the confirmation it gives.
pub open spec fn mlme_request_outcome(
    old_frames: Seq<FrameView>,
    old_pib: PIBView,
    old_data: DataService,
    request: mlme::Request,
    new_frames: Seq<FrameView>,
    new_pib: PIBView,
    new_data: DataService,
    r: Option<mlme::Confirm>,
) -> bool {
    match request {
        mlme::Request::Beacon(b) => {
            &&& r matches Some(mlme::Confirm::Beacon(x)) && beacon_outcome(
                old_frames,
                old_pib,
                b,
                new_frames,
                new_pib,
                x,
            )
            &&& new_data == old_data
        },
        mlme::Request::Reset(q) => {
            &&& r matches Some(mlme::Confirm::Reset(x)) && x is Ok
            &&& new_frames == Seq::<FrameView>::empty()
            &&& new_data.wf()
            &&& new_data@ == fresh_data_service()
            &&& reset_outcome(old_pib, q, new_pib)
        },
        mlme::Request::Start(q) => {
            &&& r matches Some(mlme::Confirm::Start(x)) && start_outcome(old_pib, q, new_pib, x)
            &&& new_frames == old_frames
            &&& new_data == old_data
        },
        mlme::Request::Get(q) => {
            &&& r matches Some(mlme::Confirm::Get(a, x)) && a == q.attribute && get_outcome(old_pib, q, x)
            &&& new_frames == old_frames
            &&& new_pib == old_pib
            &&& new_data == old_data
        },
        mlme::Request::SetAttribute(q) => {
            &&& r matches Some(mlme::Confirm::SetAttribute(a, x)) && a == q.attribute && (new_pib, x)
                == pib_set(old_pib, q.attribute, q.value@)
            &&& new_frames == old_frames
            &&& new_data == old_data
        },
    }
}

/// What handling a received frame does to the management entity's frames and
/// the PIB, and the indication it gives.
pub open spec fn frame_outcome(
    old_frames: Seq<FrameView>,
    old_pib: PIBView,
    frame: FrameView,
    new_frames: Seq<FrameView>,
    new_pib: PIBView,
    r: Option<mlme::Indication>,
) -> bool {
    match frame.frame_type {
        FrameTypeView::Command(Command::BeaconRequest()) => beacon_request_handled(
            old_frames,
            old_pib,
            frame,
            new_frames,
            new_pib,
            r,
        ),
        FrameTypeView::Command(Command::AssociationRequest(c)) => {
            &&& r == association_indication(old_pib, frame, c)
            &&& new_frames == old_frames
            &&& new_pib == old_pib
        },
        _ => r is None && new_frames == old_frames && new_pib == old_pib,
    }
}

impl ManagementService {
    /// A management entity with no frames to send.
    pub fn new(pib: &PIB) -> (r: Self)
        ensures
            r@ == Seq::<FrameView>::empty(),
    {
        let r = Self { outgoing: Vec::new() };
        assert(r@ =~= Seq::<FrameView>::empty());
        r
    }

    /// Hands out the frames produced, oldest first.
    pub fn take_outgoing(&mut self) -> (r: Vec<Frame>)
        ensures
            r@.map_values(|f: Frame| f@) == old(self)@,
            final(self)@ == Seq::<FrameView>::empty(),
    {
        let mut out: Vec<Frame> = Vec::new();
        core::mem::swap(&mut out, &mut self.outgoing);
        assert(self@ =~= Seq::<FrameView>::empty());
        out
    }

    /// MLME-BEACON.request: queues a beacon frame, or refuses with an invalid
    /// parameter.
    pub fn process_mlme_beacon_request(&mut self, pib: &mut PIB, request: mlme::BeaconRequest) -> (r: Result<(), mlme::Error>)
        ensures
            beacon_outcome(old(self)@, old(pib)@, request, final(self)@, final(pib)@, r),
    {
        if request.superframe_order != 15 || request.channel != pib.phy_current_channel || request.channel_page != 0 {
            return Err(mlme::Error::InvalidParameter);
        }
        let pan_coordinator = is_own_coordinator(pib);
        let payload = pib.mac_beacon_payload.clone();
        assert(payload@ =~= pib.mac_beacon_payload@);
        let beacon = Beacon {
            beacon_order: 15,
            superframe_order: request.superframe_order,
            final_cap_slot: 15,
            battery_life_extension: false,
            pan_coordinator,
            association_permit: pib.mac_association_permit,
            pending_short_addresses: Vec::new(),
            pending_long_addresses: Vec::new(),
            payload,
        };
        let sequence_number = pib.next_beacon_sequence_nr();
        let source = AddressSpecification::from(Some(pib.get_full_short_address()));
        let frame = Frame {
            frame_pending: false,
            acknowledge_request: false,
            sequence_number: Some(sequence_number),
            destination: AddressSpecification::NotPresent,
            source,
            frame_type: FrameType::Beacon(beacon),
        };
        self.outgoing.push(frame);
        proof {
            assert(frame@.frame_type =~= beacon_frame(old(pib)@, request).frame_type);
            assert(self@ =~= old(self)@.push(beacon_frame(old(pib)@, request)));
        }
        Ok(())
    }

    /// MLME-RESET.request: resets the PIB to its defaults when asked, and
    /// starts the management entity and the data service afresh.
    pub fn process_mlme_reset_request(
        &mut self,
        data: &mut DataService,
        pib: &mut PIB,
        request: mlme::ResetRequest,
    ) -> (r: Result<(), mlme::Error>)
        ensures
            r is Ok,
            final(self)@ == Seq::<FrameView>::empty(),
            final(data).wf(),
            final(data)@ == fresh_data_service(),
            reset_outcome(old(pib)@, request, final(pib)@),
    {
        if request.set_default_pib {
            pib.reset();
        }
        *self = Self::new(pib);
        *data = DataService::new();
        Ok(())
    }

    /// Handles an MLME request, and gives its confirmation.
    pub fn process_mlme_request(&mut self, pib: &mut PIB, data: &mut DataService, request: mlme::Request) -> (r: Option<
        mlme::Confirm,
    >)
        ensures
            mlme_request_outcome(old(self)@, old(pib)@, *old(data), request, final(self)@, final(pib)@, *final(data), r),
    {
        match request {
            mlme::Request::Beacon(request) => Some(mlme::Confirm::Beacon(self.process_mlme_beacon_request(pib, request))),
            mlme::Request::Reset(request) => Some(
                mlme::Confirm::Reset(self.process_mlme_reset_request(data, pib, request)),
            ),
            mlme::Request::Start(request) => Some(mlme::Confirm::Start(self.process_mlme_start_request(pib, request))),
            mlme::Request::Get(request) => {
                let attribute = request.attribute;
                Some(mlme::Confirm::Get(attribute, self.process_mlme_get_request(pib, request)))
            },
            mlme::Request::SetAttribute(request) => {
                let attribute = request.attribute;
                Some(mlme::Confirm::SetAttribute(attribute, self.process_mlme_set_request(pib, request)))
            },
        }
    }

    /// MLME-GET.request: the value of the attribute, or an unsupported
    /// attribute.
    pub fn process_mlme_get_request(&mut self, pib: &PIB, request: mlme::GetRequest) -> (r: Result<PIBValue, mlme::Error>)
        ensures
            final(self)@ == old(self)@,
            get_outcome(pib@, request, r),
    {
        match pib.get(request.attribute) {
            Ok(v) => Ok(v),
            Err(()) => Err(mlme::Error::UnsupportedAttribute),
        }
    }

    /// MLME-SET.request: sets the attribute in the PIB.
    pub fn process_mlme_set_request(&mut self, pib: &mut PIB, request: mlme::SetRequest) -> (r: Result<(), mlme::Error>)
        ensures
            final(self)@ == old(self)@,
            (final(pib)@, r) == pib_set(old(pib)@, request.attribute, request.value@),
    {
        pib.set(request.attribute, request.value)
    }

    /// MLME-START.request: starts a PAN with the device as its coordinator.
    /// A device without a short address cannot start one.
    pub fn process_mlme_start_request(&mut self, pib: &mut PIB, request: mlme::StartRequest) -> (r: Result<(), mlme::Error>)
        ensures
            final(self)@ == old(self)@,
            start_outcome(old(pib)@, request, final(pib)@, r),
    {
        if pib.mac_short_address.0 == 0xFFFF {
            return Err(mlme::Error::NoShortAddress);
        }
        if request.channel_page != 0 || request.start_time != 0 || request.beacon_order != 15
            || request.superframe_order != 15 || !request.pan_coordinator || request.battery_life_extension {
            return Err(mlme::Error::InvalidParameter);
        }
        pib.phy_current_channel = request.channel_number;
        pib.mac_pan_id = request.pan_id;
        if request.pan_coordinator {
            pib.mac_associated_pan_coord = Some((pib.mac_extended_address, pib.mac_short_address));
        }
        Ok(())
    }

    /// Handles a received management frame: beacon requests and association
    /// requests; other frames give nothing.
    pub fn process_frame(&mut self, pib: &mut PIB, frame: &Frame) -> (r: Option<mlme::Indication>)
        ensures
            frame_outcome(old(self)@, old(pib)@, frame@, final(self)@, final(pib)@, r),
    {
        match &frame.frame_type {
            FrameType::Command(Command::BeaconRequest()) => self.process_frame_beacon_request(pib, frame),
            FrameType::Command(Command::AssociationRequest(req)) => self.process_frame_association_request(
                pib,
                frame,
                req,
            ),
            _ => None,
        }
    }

    /// Handles a received beacon request: with automatic beacon responses
    /// the beacon is queued at once, else it is indicated to the upper
    /// layer.
    pub fn process_frame_beacon_request(&mut self, pib: &mut PIB, frame: &Frame) -> (r: Option<mlme::Indication>)
        ensures
            beacon_request_handled(old(self)@, old(pib)@, frame@, final(self)@, final(pib)@, r),
    {
        if pib.mac_beacon_auto_respond {
            let request = mlme::BeaconRequest {
                beacon_type: mlme::BeaconType::Beacon,
                channel: pib.phy_current_channel,
                channel_page: 0,
                superframe_order: 15,
                dst_addr: Option::<FullAddress>::from(frame.source),
            };
            let _ = self.process_mlme_beacon_request(pib, request);
            None
        } else {
            let dst_pan_id = match Option::<FullAddress>::from(frame.destination) {
                Some(full_address) => full_address.pan_id,
                None => PANID::broadcast(),
            };
            Some(
                mlme::Indication::BeaconRequest {
                    beacon_type: mlme::BeaconType::Beacon,
                    src_addr: Option::<FullAddress>::from(frame.source),
                    dst_pan_id,
                },
            )
        }
    }

    /// Handles a received association request with `capability_information`.
    fn process_frame_association_request(
        &self,
        pib: &PIB,
        frame: &Frame,
        capability_information: &CapabilityInformation,
    ) -> (r: Option<mlme::Indication>)
        ensures
            r == association_indication(pib@, frame@, *capability_information),
    {
        if !pib.mac_association_permit {
            return None;
        }
        if !same_full_address(Option::<FullAddress>::from(frame.destination), Some(pib.get_full_short_address())) {
            return None;
        }
        match frame.source {
            AddressSpecification::Extended(_, device_address) => Some(
                mlme::Indication::Associate { device_address, capability_information: *capability_information },
            ),
            _ => None,
        }
    }
}

/// What handling a received beacon request does: with automatic beacon
/// responses, a beacon for the current channel is queued and nothing is
/// indicated; else the request is indicated with its source address and the
/// PAN it was sent to, and nothing changes.
pub open spec fn beacon_request_handled(
    old_frames: Seq<FrameView>,
    old_pib: PIBView,
    frame: FrameView,
    new_frames: Seq<FrameView>,
    new_pib: PIBView,
    r: Option<mlme::Indication>,
) -> bool {
    if old_pib.mac_beacon_auto_respond {
        let request = mlme::BeaconRequest {
            beacon_type: mlme::BeaconType::Beacon,
            channel: old_pib.phy_current_channel,
            channel_page: 0,
            superframe_order: 15,
            dst_addr: full_address_of(frame.source),
        };
        &&& r is None
        &&& new_frames == old_frames.push(beacon_frame(old_pib, request))
        &&& new_pib == bsn_taken(old_pib)
    } else {
        &&& r == Some(
            mlme::Indication::BeaconRequest {
                beacon_type: mlme::BeaconType::Beacon,
                src_addr: full_address_of(frame.source),
                dst_pan_id: destination_pan_id(frame),
            },
        )
        &&& new_frames == old_frames
        &&& new_pib == old_pib
    }
}

} // verus!
