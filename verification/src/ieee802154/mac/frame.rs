//! MAC frames (IEEE Std 802.15.4-2015, 7.2): their model, their encoding and
//! their decoding.
use crate::ieee802154::mac::commands::{command_bytes, command_unpack, Command};
use crate::ieee802154::{ExtendedAddress, ShortAddress, PANID};
use crate::pack::{Pack, UnpackError, VecPackTarget};
use crate::parse_serialize::{
    extend_from, lemma_le16_roundtrip, lemma_le64_roundtrip, le16, le64, push_le16, push_le64, read_le16, read_le64, take_all, take_le16,
    take_le64, take_u8, SerializeError,
};
use vstd::prelude::*;

verus! {

/// The addressing fields of one end of a frame.
#[derive(Debug, PartialEq, Eq, Structural, Hash, Clone, Copy)]
pub enum AddressSpecification {
    /// No address (and no PAN identifier) is present.
    NotPresent,
    Short(PANID, ShortAddress),
    Extended(PANID, ExtendedAddress),
}

/// The payload of a beacon frame.
#[derive(Debug, PartialEq, Eq, Hash)]
pub struct Beacon {
    pub beacon_order: usize,
    pub superframe_order: usize,
    pub final_cap_slot: usize,
    pub battery_life_extension: bool,
    pub pan_coordinator: bool,
    pub association_permit: bool,
    pub pending_short_addresses: Vec<ShortAddress>,
    pub pending_long_addresses: Vec<ExtendedAddress>,
    pub payload: Vec<u8>,
}

/// The frame types (7.2.2.2), with what each carries.
#[derive(Debug, PartialEq, Eq, Hash)]
pub enum FrameType {
    Beacon(Beacon),
    Data(Vec<u8>),
    Ack,
    Command(Command),
    Reserved,
    Multipurpose,
    Fragment,
    Extended,
}

/// A MAC frame.
#[derive(Debug, PartialEq, Eq, Hash)]
pub struct Frame {
    pub frame_pending: bool,
    pub acknowledge_request: bool,
    pub sequence_number: Option<u8>,
    pub destination: AddressSpecification,
    pub source: AddressSpecification,
    pub frame_type: FrameType,
}

/// A beacon, with its lists as sequences.
#[verifier::ext_equal]
pub struct BeaconView {
    pub beacon_order: usize,
    pub superframe_order: usize,
    pub final_cap_slot: usize,
    pub battery_life_extension: bool,
    pub pan_coordinator: bool,
    pub association_permit: bool,
    pub pending_short_addresses: Seq<ShortAddress>,
    pub pending_long_addresses: Seq<ExtendedAddress>,
    pub payload: Seq<u8>,
}

/// A frame type, with its payloads as sequences.
#[verifier::ext_equal]
pub enum FrameTypeView {
    Beacon(BeaconView),
    Data(Seq<u8>),
    Ack,
    Command(Command),
    Reserved,
    Multipurpose,
    Fragment,
    Extended,
}

/// A frame, with its payloads as sequences.
#[verifier::ext_equal]
pub struct FrameView {
    pub frame_pending: bool,
    pub acknowledge_request: bool,
    pub sequence_number: Option<u8>,
    pub destination: AddressSpecification,
    pub source: AddressSpecification,
    pub frame_type: FrameTypeView,
}

impl View for AddressSpecification {
    type V = AddressSpecification;

    open spec fn view(&self) -> AddressSpecification {
        *self
    }
}

impl View for Beacon {
    type V = BeaconView;

    open spec fn view(&self) -> BeaconView {
        BeaconView {
            beacon_order: self.beacon_order,
            superframe_order: self.superframe_order,
            final_cap_slot: self.final_cap_slot,
            battery_life_extension: self.battery_life_extension,
            pan_coordinator: self.pan_coordinator,
            association_permit: self.association_permit,
            pending_short_addresses: self.pending_short_addresses@,
            pending_long_addresses: self.pending_long_addresses@,
            payload: self.payload@,
        }
    }
}

impl View for FrameType {
    type V = FrameTypeView;

    open spec fn view(&self) -> FrameTypeView {
        match self {
            FrameType::Beacon(b) => FrameTypeView::Beacon(b@),
            FrameType::Data(d) => FrameTypeView::Data(d@),
            FrameType::Ack => FrameTypeView::Ack,
            FrameType::Command(c) => FrameTypeView::Command(*c),
            FrameType::Reserved => FrameTypeView::Reserved,
            FrameType::Multipurpose => FrameTypeView::Multipurpose,
            FrameType::Fragment => FrameTypeView::Fragment,
            FrameType::Extended => FrameTypeView::Extended,
        }
    }
}

impl View for Frame {
    type V = FrameView;

    open spec fn view(&self) -> FrameView {
        FrameView {
            frame_pending: self.frame_pending,
            acknowledge_request: self.acknowledge_request,
            sequence_number: self.sequence_number,
            destination: self.destination,
            source: self.source,
            frame_type: self.frame_type@,
        }
    }
}

/// A copy of a byte vector.
fn copy_bytes(v: &Vec<u8>) -> (r: Vec<u8>)
    ensures
        r@ == v@,
{
    let c = v.clone();
    assert(c@ =~= v@);
    c
}

impl Clone for Beacon {
    fn clone(&self) -> (r: Self)
        ensures
            r@ == self@,
    {
        let short = self.pending_short_addresses.clone();
        assert(short@ =~= self.pending_short_addresses@);
        let long = self.pending_long_addresses.clone();
        assert(long@ =~= self.pending_long_addresses@);
        Beacon {
            beacon_order: self.beacon_order,
            superframe_order: self.superframe_order,
            final_cap_slot: self.final_cap_slot,
            battery_life_extension: self.battery_life_extension,
            pan_coordinator: self.pan_coordinator,
            association_permit: self.association_permit,
            pending_short_addresses: short,
            pending_long_addresses: long,
            payload: copy_bytes(&self.payload),
        }
    }
}

impl Clone for FrameType {
    fn clone(&self) -> (r: Self)
        ensures
            r@ == self@,
    {
        match self {
            FrameType::Beacon(b) => FrameType::Beacon(b.clone()),
            FrameType::Data(d) => FrameType::Data(copy_bytes(d)),
            FrameType::Ack => FrameType::Ack,
            FrameType::Command(c) => FrameType::Command(*c),
            FrameType::Reserved => FrameType::Reserved,
            FrameType::Multipurpose => FrameType::Multipurpose,
            FrameType::Fragment => FrameType::Fragment,
            FrameType::Extended => FrameType::Extended,
        }
    }
}

impl Clone for Frame {
    fn clone(&self) -> (r: Self)
        ensures
            r@ == self@,
    {
        Frame {
            frame_pending: self.frame_pending,
            acknowledge_request: self.acknowledge_request,
            sequence_number: self.sequence_number,
            destination: self.destination,
            source: self.source,
            frame_type: self.frame_type.clone(),
        }
    }
}

/*=== The encoding, as functions on byte sequences ===*/

/// `1` for `true`, `0` for `false`.
pub open spec fn flag(b: bool) -> u16 {
    if b {
        1
    } else {
        0
    }
}

/// The addressing mode field of an address specification.
pub open spec fn address_mode(a: AddressSpecification) -> u16 {
    match a {
        AddressSpecification::NotPresent => 0,
        AddressSpecification::Short(_, _) => 2,
        AddressSpecification::Extended(_, _) => 3,
    }
}

/// The PAN identifier of an address specification.
pub open spec fn address_pan_id(a: AddressSpecification) -> Option<PANID> {
    match a {
        AddressSpecification::NotPresent => None,
        AddressSpecification::Short(p, _) => Some(p),
        AddressSpecification::Extended(p, _) => Some(p),
    }
}

/// The bytes of an address specification; the PAN identifier is left out
/// when `skip_panid` holds.
pub open spec fn address_bytes(a: AddressSpecification, skip_panid: bool) -> Seq<u8> {
    match a {
        AddressSpecification::NotPresent => Seq::empty(),
        AddressSpecification::Short(p, s) => (if skip_panid {
            Seq::empty()
        } else {
            le16(p.0)
        }) + le16(s.0),
        AddressSpecification::Extended(p, e) => (if skip_panid {
            Seq::empty()
        } else {
            le16(p.0)
        }) + le64(e.0),
    }
}

/// The PAN identifier at the front of `data`, unless one is given.
pub open spec fn pan_id_parse(use_panid: Option<PANID>, data: Seq<u8>) -> Result<(PANID, nat), SerializeError> {
    match use_panid {
        Some(p) => Ok((p, 0)),
        None => if data.len() < 2 {
            Err(SerializeError::InsufficientData)
        } else {
            Ok((PANID(read_le16(data)), 2))
        },
    }
}

/// Decoding the address specification of addressing mode `tag`; when
/// `use_panid` is given, the PAN identifier is not read but taken from it.
pub open spec fn address_parse(tag: u16, use_panid: Option<PANID>, data: Seq<u8>) -> Result<(AddressSpecification, nat), SerializeError> {
    if tag == 0 {
        Ok((AddressSpecification::NotPresent, 0))
    } else if tag == 1 {
        Err(SerializeError::Unimplemented("Unable to parse Frame with 'Reserved' address specification"))
    } else if tag == 2 || tag == 3 {
        match pan_id_parse(use_panid, data) {
            Err(e) => Err(e),
            Ok((p, n)) => {
                let d = data.skip(n as int);
                if tag == 2 {
                    if d.len() < 2 {
                        Err(SerializeError::InsufficientData)
                    } else {
                        Ok((AddressSpecification::Short(p, ShortAddress(read_le16(d))), n + 2))
                    }
                } else {
                    if d.len() < 8 {
                        Err(SerializeError::InsufficientData)
                    } else {
                        Ok((AddressSpecification::Extended(p, ExtendedAddress(read_le64(d))), n + 8))
                    }
                }
            },
        }
    } else {
        Err(SerializeError::UnexpectedData)
    }
}

/// Whether the source PAN identifier is left out: both ends name the same PAN.
pub open spec fn pan_id_compression(destination: AddressSpecification, source: AddressSpecification) -> bool {
    address_pan_id(source) == address_pan_id(destination) && address_pan_id(source) is Some
}

/// The frame type field of a frame type.
pub open spec fn frame_type_tag(t: FrameTypeView) -> u16 {
    match t {
        FrameTypeView::Beacon(_) => 0,
        FrameTypeView::Data(_) => 1,
        FrameTypeView::Ack => 2,
        FrameTypeView::Command(_) => 3,
        FrameTypeView::Reserved => 4,
        FrameTypeView::Multipurpose => 5,
        FrameTypeView::Fragment => 6,
        FrameTypeView::Extended => 7,
    }
}

/// The frame control field from its parts (7.2.1): frame type in bits 0-2,
/// frame pending in bit 4, acknowledge request in bit 5, PAN ID compression
/// in bit 6, sequence number suppression in bit 8, the destination addressing
/// mode in bits 10-11 and the source addressing mode in bits 14-15; security,
/// information elements and frame version are 0.
pub open spec fn frame_control_value(
    frame_type: u16,
    frame_pending: u16,
    acknowledge_request: u16,
    pan_id_compression: u16,
    sequence_number_suppression: u16,
    destination_mode: u16,
    source_mode: u16,
) -> u16 {
    frame_type | (frame_pending << 4u16) | (acknowledge_request << 5u16) | (pan_id_compression << 6u16)
        | (sequence_number_suppression << 8u16) | (destination_mode << 10u16) | (source_mode << 14u16)
}

/// The frame control field of a frame.
pub open spec fn frame_control(f: FrameView) -> u16 {
    frame_control_value(
        frame_type_tag(f.frame_type),
        flag(f.frame_pending),
        flag(f.acknowledge_request),
        flag(pan_id_compression(f.destination, f.source)),
        flag(f.sequence_number is None),
        address_mode(f.destination),
        address_mode(f.source),
    )
}

/// The bytes of the sequence number field.
pub open spec fn sequence_number_bytes(s: Option<u8>) -> Seq<u8> {
    match s {
        Some(x) => seq![x],
        None => Seq::empty(),
    }
}

/// The header of a frame: frame control, sequence number and addressing
/// fields.
pub open spec fn frame_header_bytes(f: FrameView) -> Seq<u8> {
    le16(frame_control(f)) + sequence_number_bytes(f.sequence_number) + address_bytes(f.destination, false)
        + address_bytes(f.source, pan_id_compression(f.destination, f.source))
}

/// The superframe specification field of a beacon (7.3.1.3), from fields that
/// fit: beacon order in bits 0-3, superframe order in bits 4-7, final CAP slot
/// in bits 8-11, battery life extension in bit 12, PAN coordinator in bit 14
/// and association permit in bit 15.
pub open spec fn superframe_value(
    beacon_order: u16,
    superframe_order: u16,
    final_cap_slot: u16,
    battery_life_extension: u16,
    pan_coordinator: u16,
    association_permit: u16,
) -> u16 {
    beacon_order | (superframe_order << 4u16) | (final_cap_slot << 8u16) | (battery_life_extension << 12u16)
        | (pan_coordinator << 14u16) | (association_permit << 15u16)
}

/// The superframe specification of a beacon whose orders fit in four bits.
pub open spec fn superframe_specification(b: BeaconView) -> u16 {
    superframe_value(
        b.beacon_order as u16,
        b.superframe_order as u16,
        b.final_cap_slot as u16,
        flag(b.battery_life_extension),
        flag(b.pan_coordinator),
        flag(b.association_permit),
    )
}

/// The bytes of a beacon payload: the superframe specification, empty GTS and
/// pending address fields, and the beacon payload. The pending address lists
/// are not written.
pub open spec fn beacon_bytes(b: BeaconView) -> Result<Seq<u8>, SerializeError> {
    if b.beacon_order > 0xF {
        Err(SerializeError::Unimplemented("Beacon order is too big"))
    } else if b.superframe_order > 0xF {
        Err(SerializeError::Unimplemented("Superframe order is too big"))
    } else if b.final_cap_slot > 0xF {
        Err(SerializeError::Unimplemented("Final cap slot is too big"))
    } else {
        Ok(le16(superframe_specification(b)) + seq![0u8, 0u8] + b.payload)
    }
}

/// Decoding a beacon payload; it takes all of `data`.
pub open spec fn beacon_parse(data: Seq<u8>) -> Result<(BeaconView, nat), SerializeError> {
    if data.len() < 4 {
        Err(SerializeError::InsufficientData)
    } else if data[2] != 0 || data[3] != 0 {
        Err(SerializeError::Unimplemented("Beacon frame, GTS or pending addresses not empty"))
    } else {
        let ss = read_le16(data);
        Ok(
            (
                BeaconView {
                    beacon_order: (ss & 0xF) as usize,
                    superframe_order: ((ss >> 4u16) & 0xF) as usize,
                    final_cap_slot: ((ss >> 8u16) & 0xF) as usize,
                    battery_life_extension: (ss >> 12u16) & 1 != 0,
                    pan_coordinator: (ss >> 14u16) & 1 != 0,
                    association_permit: (ss >> 15u16) & 1 != 0,
                    pending_short_addresses: Seq::empty(),
                    pending_long_addresses: Seq::empty(),
                    payload: data.skip(4),
                },
                data.len(),
            ),
        )
    }
}

/// The error a failed command decoding is reported as.
pub open spec fn command_error(e: UnpackError) -> SerializeError {
    match e {
        UnpackError::NotEnoughData => SerializeError::InsufficientData,
        UnpackError::InvalidEnumTag => SerializeError::UnexpectedData,
        UnpackError::Unsupported(_) => SerializeError::UnexpectedData,
        UnpackError::Unimplemented(_) => SerializeError::Unimplemented("Unimplemented MAC command"),
    }
}

/// The bytes that follow the header for a frame type.
pub open spec fn frame_type_data_bytes(t: FrameTypeView) -> Result<Seq<u8>, SerializeError> {
    match t {
        FrameTypeView::Beacon(b) => beacon_bytes(b),
        FrameTypeView::Data(d) => Ok(d),
        FrameTypeView::Command(c) => Ok(command_bytes(c)),
        _ => Ok(Seq::empty()),
    }
}

/// Decoding what follows the header, for frame type field `tag`.
pub open spec fn frame_type_parse(tag: u16, data: Seq<u8>) -> Result<(FrameTypeView, nat), SerializeError> {
    if tag == 0 {
        match beacon_parse(data) {
            Ok((b, n)) => Ok((FrameTypeView::Beacon(b), n)),
            Err(e) => Err(e),
        }
    } else if tag == 1 {
        Ok((FrameTypeView::Data(data), data.len()))
    } else if tag == 2 {
        Ok((FrameTypeView::Ack, 0))
    } else if tag == 3 {
        match command_unpack(data) {
            Ok((c, n)) => Ok((FrameTypeView::Command(c), n)),
            Err(e) => Err(command_error(e)),
        }
    } else if tag == 4 {
        Ok((FrameTypeView::Reserved, 0))
    } else if tag == 5 {
        Ok((FrameTypeView::Multipurpose, 0))
    } else if tag == 6 {
        Ok((FrameTypeView::Fragment, 0))
    } else if tag == 7 {
        Ok((FrameTypeView::Extended, 0))
    } else {
        Err(SerializeError::UnexpectedData)
    }
}

/// The bytes of a frame.
pub open spec fn frame_bytes(f: FrameView) -> Result<Seq<u8>, SerializeError> {
    match frame_type_data_bytes(f.frame_type) {
        Ok(d) => Ok(frame_header_bytes(f) + d),
        Err(e) => Err(e),
    }
}

/// Decoding the sequence number field, absent when suppressed.
pub open spec fn sequence_number_parse(suppressed: bool, data: Seq<u8>) -> Result<(Option<u8>, nat), SerializeError> {
    if suppressed {
        Ok((None, 0))
    } else if data.len() < 1 {
        Err(SerializeError::InsufficientData)
    } else {
        Ok((Some(data[0]), 1))
    }
}

/// Decoding the frame type and what follows it, once the header is known.
pub open spec fn frame_payload_parse(
    fc: u16,
    sequence_number: Option<u8>,
    destination: AddressSpecification,
    source: AddressSpecification,
    data: Seq<u8>,
) -> Result<(FrameView, nat), SerializeError> {
    match frame_type_parse(fc & 7, data) {
        Err(e) => Err(e),
        Ok((frame_type, n)) => Ok(
            (
                FrameView {
                    frame_pending: (fc >> 4u16) & 1 != 0,
                    acknowledge_request: (fc >> 5u16) & 1 != 0,
                    sequence_number,
                    destination,
                    source,
                    frame_type,
                },
                n,
            ),
        ),
    }
}

/// Decoding the source address and the rest, once the destination is known;
/// the source PAN identifier is the destination's when PAN ID compression is
/// set.
pub open spec fn frame_source_parse(
    fc: u16,
    sequence_number: Option<u8>,
    destination: AddressSpecification,
    data: Seq<u8>,
) -> Result<(FrameView, nat), SerializeError> {
    let use_panid = if (fc >> 6u16) & 1 != 0 {
        address_pan_id(destination)
    } else {
        None
    };
    match address_parse((fc >> 14u16) & 3, use_panid, data) {
        Err(e) => Err(e),
        Ok((source, n)) => match frame_payload_parse(fc, sequence_number, destination, source, data.skip(n as int)) {
            Err(e) => Err(e),
            Ok((f, m)) => Ok((f, n + m)),
        },
    }
}

/// Decoding the destination address and the rest, once the sequence number
/// is known.
pub open spec fn frame_destination_parse(fc: u16, sequence_number: Option<u8>, data: Seq<u8>) -> Result<(FrameView, nat), SerializeError> {
    match address_parse((fc >> 10u16) & 3, None, data) {
        Err(e) => Err(e),
        Ok((destination, n)) => match frame_source_parse(fc, sequence_number, destination, data.skip(n as int)) {
            Err(e) => Err(e),
            Ok((f, m)) => Ok((f, n + m)),
        },
    }
}

/// Decoding what follows frame control field `fc`.
pub open spec fn frame_after_control_parse(fc: u16, data: Seq<u8>) -> Result<(FrameView, nat), SerializeError> {
    match sequence_number_parse((fc >> 8u16) & 1 != 0, data) {
        Err(e) => Err(e),
        Ok((sequence_number, n)) => match frame_destination_parse(fc, sequence_number, data.skip(n as int)) {
            Err(e) => Err(e),
            Ok((f, m)) => Ok((f, n + m)),
        },
    }
}

/// Decoding a frame from the front of `data`, with how many bytes it took.
/// Security, information elements and frame version bits are not read.
pub open spec fn frame_parse(data: Seq<u8>) -> Result<(FrameView, nat), SerializeError> {
    if data.len() < 2 {
        Err(SerializeError::InsufficientData)
    } else {
        match frame_after_control_parse(read_le16(data), data.skip(2)) {
            Err(e) => Err(e),
            Ok((f, n)) => Ok((f, n + 2)),
        }
    }
}

/// `r` is what decoding `data` gives when the format says `expected`.
pub open spec fn deserialize_result<V: View>(
    data: Seq<u8>,
    expected: Result<(V::V, nat), SerializeError>,
    r: Result<(&[u8], V), SerializeError>,
) -> bool {
    match expected {
        Ok((v, n)) => {
            &&& n <= data.len()
            &&& r matches Ok((rest, w)) && w@ == v && rest@ == data.skip(n as int)
        },
        Err(e) => r matches Err(f) && f == e,
    }
}

/*=== Decoding what was encoded ===*/

/// Whether decoding can give a frame back: the decoder yields empty pending
/// address lists, and the capability information of an association request
/// is not encoded.
pub open spec fn frame_decodes_back(f: FrameView) -> bool {
    match f.frame_type {
        FrameTypeView::Beacon(b) => b.pending_short_addresses.len() == 0 && b.pending_long_addresses.len() == 0,
        FrameTypeView::Command(c) => !(c is AssociationRequest),
        _ => true,
    }
}

/// The fields of a frame control value read back as they were put in.
proof fn lemma_frame_control_fields(t: u16, fp: u16, ar: u16, pc: u16, sn: u16, dm: u16, sm: u16)
    by (bit_vector)
    requires
        t < 8,
        fp < 2,
        ar < 2,
        pc < 2,
        sn < 2,
        dm < 4,
        sm < 4,
    ensures
        frame_control_value(t, fp, ar, pc, sn, dm, sm) & 7 == t,
        (frame_control_value(t, fp, ar, pc, sn, dm, sm) >> 4u16) & 1 == fp,
        (frame_control_value(t, fp, ar, pc, sn, dm, sm) >> 5u16) & 1 == ar,
        (frame_control_value(t, fp, ar, pc, sn, dm, sm) >> 6u16) & 1 == pc,
        (frame_control_value(t, fp, ar, pc, sn, dm, sm) >> 8u16) & 1 == sn,
        (frame_control_value(t, fp, ar, pc, sn, dm, sm) >> 10u16) & 3 == dm,
        (frame_control_value(t, fp, ar, pc, sn, dm, sm) >> 14u16) & 3 == sm,
{
}

/// The fields of a superframe specification read back as they were put in.
proof fn lemma_superframe_fields(bo: u16, so: u16, fcs: u16, ble: u16, pc: u16, ap: u16)
    by (bit_vector)
    requires
        bo < 16,
        so < 16,
        fcs < 16,
        ble < 2,
        pc < 2,
        ap < 2,
    ensures
        superframe_value(bo, so, fcs, ble, pc, ap) & 0xF == bo,
        (superframe_value(bo, so, fcs, ble, pc, ap) >> 4u16) & 0xF == so,
        (superframe_value(bo, so, fcs, ble, pc, ap) >> 8u16) & 0xF == fcs,
        (superframe_value(bo, so, fcs, ble, pc, ap) >> 12u16) & 1 == ble,
        (superframe_value(bo, so, fcs, ble, pc, ap) >> 14u16) & 1 == pc,
        (superframe_value(bo, so, fcs, ble, pc, ap) >> 15u16) & 1 == ap,
{
}

/// An address specification decodes back, whatever follows it, when the PAN
/// identifier left out is the one handed to the decoder.
proof fn lemma_address_roundtrip(a: AddressSpecification, skip_panid: bool, use_panid: Option<PANID>, rest: Seq<u8>)
    requires
        skip_panid ==> use_panid == address_pan_id(a),
        !skip_panid ==> use_panid is None,
    ensures
        address_parse(address_mode(a), use_panid, address_bytes(a, skip_panid) + rest) == Ok::<(AddressSpecification, nat), SerializeError>(
            (a, address_bytes(a, skip_panid).len()),
        ),
{
    match a {
        AddressSpecification::NotPresent => {},
        AddressSpecification::Short(p, s) => {
            lemma_le16_roundtrip(s.0, rest);
            if skip_panid {
                assert(address_bytes(a, skip_panid) + rest =~= le16(s.0) + rest);
                assert((address_bytes(a, skip_panid) + rest).skip(0) =~= le16(s.0) + rest);
            } else {
                lemma_le16_roundtrip(p.0, le16(s.0) + rest);
                assert(address_bytes(a, skip_panid) + rest =~= le16(p.0) + (le16(s.0) + rest));
            }
        },
        AddressSpecification::Extended(p, e) => {
            lemma_le64_roundtrip(e.0, rest);
            if skip_panid {
                assert(address_bytes(a, skip_panid) + rest =~= le64(e.0) + rest);
                assert((address_bytes(a, skip_panid) + rest).skip(0) =~= le64(e.0) + rest);
            } else {
                lemma_le16_roundtrip(p.0, le64(e.0) + rest);
                assert(address_bytes(a, skip_panid) + rest =~= le16(p.0) + (le64(e.0) + rest));
            }
        },
    }
}

/// What follows the header decodes back to the frame type.
proof fn lemma_frame_type_roundtrip(t: FrameTypeView)
    requires
        frame_type_data_bytes(t) is Ok,
        frame_decodes_back(FrameView {
            frame_pending: false,
            acknowledge_request: false,
            sequence_number: None,
            destination: AddressSpecification::NotPresent,
            source: AddressSpecification::NotPresent,
            frame_type: t,
        }),
    ensures
        frame_type_parse(frame_type_tag(t), frame_type_data_bytes(t)->Ok_0) == Ok::<(FrameTypeView, nat), SerializeError>(
            (t, frame_type_data_bytes(t)->Ok_0.len()),
        ),
{
    let d = frame_type_data_bytes(t)->Ok_0;
    match t {
        FrameTypeView::Beacon(b) => {
            let ss = superframe_specification(b);
            lemma_le16_roundtrip(ss, seq![0u8, 0u8] + b.payload);
            assert(d =~= le16(ss) + (seq![0u8, 0u8] + b.payload));
            assert(d[2] == 0 && d[3] == 0);
            assert(d.skip(4) =~= b.payload);
            lemma_superframe_fields(
                b.beacon_order as u16,
                b.superframe_order as u16,
                b.final_cap_slot as u16,
                flag(b.battery_life_extension),
                flag(b.pan_coordinator),
                flag(b.association_permit),
            );
            let v = beacon_parse(d)->Ok_0.0;
            assert(v =~= b);
        },
        FrameTypeView::Command(c) => {
            crate::ieee802154::mac::commands::lemma_command_roundtrip(c, Seq::empty());
            assert(command_bytes(c) + Seq::<u8>::empty() =~= command_bytes(c));
        },
        _ => {},
    }
}

/// The fields of the frame control field of a frame read back as they were
/// put in.
proof fn lemma_frame_control_of(f: FrameView)
    ensures
        frame_control(f) & 7 == frame_type_tag(f.frame_type),
        ((frame_control(f) >> 4u16) & 1 != 0) == f.frame_pending,
        ((frame_control(f) >> 5u16) & 1 != 0) == f.acknowledge_request,
        ((frame_control(f) >> 6u16) & 1 != 0) == pan_id_compression(f.destination, f.source),
        ((frame_control(f) >> 8u16) & 1 != 0) == (f.sequence_number is None),
        (frame_control(f) >> 10u16) & 3 == address_mode(f.destination),
        (frame_control(f) >> 14u16) & 3 == address_mode(f.source),
{
    lemma_frame_control_fields(
        frame_type_tag(f.frame_type),
        flag(f.frame_pending),
        flag(f.acknowledge_request),
        flag(pan_id_compression(f.destination, f.source)),
        flag(f.sequence_number is None),
        address_mode(f.destination),
        address_mode(f.source),
    );
}

/// The source address and payload of a frame decode back.
proof fn lemma_frame_source_roundtrip(f: FrameView)
    requires
        frame_bytes(f) is Ok,
        frame_decodes_back(f),
    ensures
        ({
            let h3 = address_bytes(f.source, pan_id_compression(f.destination, f.source));
            let d = frame_type_data_bytes(f.frame_type)->Ok_0;
            frame_source_parse(frame_control(f), f.sequence_number, f.destination, h3 + d)
                == Ok::<(FrameView, nat), SerializeError>((f, h3.len() + d.len()))
        }),
{
    let fc = frame_control(f);
    let pc = pan_id_compression(f.destination, f.source);
    let h3 = address_bytes(f.source, pc);
    let d = frame_type_data_bytes(f.frame_type)->Ok_0;
    lemma_frame_control_of(f);
    let use_panid = if pc {
        address_pan_id(f.destination)
    } else {
        None::<PANID>
    };
    lemma_address_roundtrip(f.source, pc, use_panid, d);
    assert((h3 + d).skip(h3.len() as int) =~= d);
    lemma_frame_type_roundtrip(f.frame_type);
    let g = frame_payload_parse(fc, f.sequence_number, f.destination, f.source, d)->Ok_0.0;
    assert(g =~= f);
}

/// The addresses and payload of a frame decode back.
proof fn lemma_frame_destination_roundtrip(f: FrameView)
    requires
        frame_bytes(f) is Ok,
        frame_decodes_back(f),
    ensures
        ({
            let h2 = address_bytes(f.destination, false);
            let h3 = address_bytes(f.source, pan_id_compression(f.destination, f.source));
            let d = frame_type_data_bytes(f.frame_type)->Ok_0;
            frame_destination_parse(frame_control(f), f.sequence_number, h2 + (h3 + d))
                == Ok::<(FrameView, nat), SerializeError>((f, h2.len() + h3.len() + d.len()))
        }),
{
    let h2 = address_bytes(f.destination, false);
    let h3 = address_bytes(f.source, pan_id_compression(f.destination, f.source));
    let d = frame_type_data_bytes(f.frame_type)->Ok_0;
    lemma_frame_control_of(f);
    lemma_address_roundtrip(f.destination, false, None, h3 + d);
    assert((h2 + (h3 + d)).skip(h2.len() as int) =~= h3 + d);
    lemma_frame_source_roundtrip(f);
}

/// Decoding the bytes of a frame gives the frame back, unless the frame
/// carries what the encoding leaves out (pending address lists of a beacon,
/// the capability information of an association request).
pub proof fn lemma_frame_roundtrip(f: FrameView)
    requires
        frame_bytes(f) is Ok,
        frame_decodes_back(f),
    ensures
        frame_parse(frame_bytes(f)->Ok_0) == Ok::<(FrameView, nat), SerializeError>((f, frame_bytes(f)->Ok_0.len())),
{
    let fc = frame_control(f);
    let h1 = sequence_number_bytes(f.sequence_number);
    let h2 = address_bytes(f.destination, false);
    let h3 = address_bytes(f.source, pan_id_compression(f.destination, f.source));
    let d = frame_type_data_bytes(f.frame_type)->Ok_0;
    let data = frame_bytes(f)->Ok_0;
    assert(data =~= le16(fc) + (h1 + (h2 + (h3 + d))));
    lemma_le16_roundtrip(fc, h1 + (h2 + (h3 + d)));
    lemma_frame_control_of(f);
    let d1 = h1 + (h2 + (h3 + d));
    assert(d1.skip(h1.len() as int) =~= h2 + (h3 + d));
    if let Some(x) = f.sequence_number {
        assert(d1[0] == x);
    }
    lemma_frame_destination_roundtrip(f);
}

/*=== Executable encoding and decoding ===*/

/// `1` for `true`, `0` for `false`.
fn bit_flag(b: bool) -> (r: u16)
    ensures
        r == flag(b),
{
    if b {
        1
    } else {
        0
    }
}

/// Whether two optional PAN identifiers are equal.
fn same_pan_id(a: Option<PANID>, b: Option<PANID>) -> (r: bool)
    ensures
        r == (a == b),
{
    match (a, b) {
        (None, None) => true,
        (Some(x), Some(y)) => x.0 == y.0,
        _ => false,
    }
}

impl AddressSpecification {
    /// Appends the address fields; the PAN identifier is left out when
    /// `skip_panid` holds.
    pub fn serialize_to(&self, skip_panid: bool, target: &mut Vec<u8>) -> (r: Result<(), SerializeError>)
        ensures
            r is Ok,
            final(target)@ == old(target)@ + address_bytes(*self, skip_panid),
    {
        match self {
            AddressSpecification::NotPresent => {
                assert(old(target)@ + Seq::<u8>::empty() =~= old(target)@);
            },
            AddressSpecification::Short(panid, address) => {
                if !skip_panid {
                    push_le16(target, panid.0);
                } else {
                    assert(old(target)@ + Seq::<u8>::empty() =~= old(target)@);
                }
                push_le16(target, address.0);
                assert(final(target)@ =~= old(target)@ + address_bytes(*self, skip_panid));
            },
            AddressSpecification::Extended(panid, address) => {
                if !skip_panid {
                    push_le16(target, panid.0);
                } else {
                    assert(old(target)@ + Seq::<u8>::empty() =~= old(target)@);
                }
                push_le64(target, address.0);
                assert(final(target)@ =~= old(target)@ + address_bytes(*self, skip_panid));
            },
        }
        Ok(())
    }

    /// The addressing mode field.
    pub fn serialize_tag(&self) -> (r: u16)
        ensures
            r == address_mode(*self),
    {
        match self {
            AddressSpecification::NotPresent => 0,
            AddressSpecification::Short(_, _) => 2,
            AddressSpecification::Extended(_, _) => 3,
        }
    }

    /// The PAN identifier, if any.
    pub fn pan_id(&self) -> (r: Option<PANID>)
        ensures
            r == address_pan_id(*self),
    {
        match self {
            AddressSpecification::NotPresent => None,
            AddressSpecification::Short(panid, _) => Some(*panid),
            AddressSpecification::Extended(panid, _) => Some(*panid),
        }
    }

    /// Decodes the address fields of addressing mode `tag`; the PAN
    /// identifier is taken from `use_panid` when given.
    pub fn deserialize(tag: u16, use_panid: Option<PANID>, input: &[u8]) -> (r: Result<(&[u8], Self), SerializeError>)
        ensures
            deserialize_result(input@, address_parse(tag, use_panid, input@), r),
    {
        if tag == 0 {
            assert(input@.skip(0) =~= input@);
            Ok((input, AddressSpecification::NotPresent))
        } else if tag == 1 {
            Err(SerializeError::Unimplemented("Unable to parse Frame with 'Reserved' address specification"))
        } else if tag == 2 || tag == 3 {
            let (input2, panid) = match use_panid {
                Some(p) => {
                    assert(input@.skip(0) =~= input@);
                    (input, p)
                },
                None => {
                    let (rest, x) = take_le16(input)?;
                    (rest, PANID(x))
                },
            };
            let ghost n: nat = if use_panid is Some { 0 } else { 2 };
            assert(input2@ == input@.skip(n as int));
            if tag == 2 {
                let (rest, x) = take_le16(input2)?;
                assert(rest@ =~= input@.skip((n + 2) as int));
                Ok((rest, AddressSpecification::Short(panid, ShortAddress(x))))
            } else {
                let (rest, x) = take_le64(input2)?;
                assert(rest@ =~= input@.skip((n + 8) as int));
                Ok((rest, AddressSpecification::Extended(panid, ExtendedAddress(x))))
            }
        } else {
            Err(SerializeError::UnexpectedData)
        }
    }
}

impl Beacon {
    /// Appends the beacon payload: superframe specification, empty GTS and
    /// pending address fields, then the payload. Fails, writing nothing, when
    /// an order does not fit in four bits.
    pub fn serialize_to(&self, target: &mut Vec<u8>) -> (r: Result<(), SerializeError>)
        ensures
            match beacon_bytes(self@) {
                Ok(b) => r is Ok && final(target)@ == old(target)@ + b,
                Err(e) => r == Err::<(), SerializeError>(e) && final(target)@ == old(target)@,
            },
    {
        if self.beacon_order > 0xF {
            return Err(SerializeError::Unimplemented("Beacon order is too big"));
        }
        if self.superframe_order > 0xF {
            return Err(SerializeError::Unimplemented("Superframe order is too big"));
        }
        if self.final_cap_slot > 0xF {
            return Err(SerializeError::Unimplemented("Final cap slot is too big"));
        }
        let ss: u16 = (self.beacon_order as u16) | ((self.superframe_order as u16) << 4u16) | (
        (self.final_cap_slot as u16) << 8u16) | (bit_flag(self.battery_life_extension) << 12u16) | (
        bit_flag(self.pan_coordinator) << 14u16) | (bit_flag(self.association_permit) << 15u16);
        push_le16(target, ss);
        target.push(0u8);
        target.push(0u8);
        extend_from(target, self.payload.as_slice());
        assert(final(target)@ =~= old(target)@ + (le16(ss) + seq![0u8, 0u8] + self.payload@));
        Ok(())
    }

    /// Decodes a beacon payload; it takes all of `input`.
    pub fn deserialize(input: &[u8]) -> (r: Result<(&[u8], Beacon), SerializeError>)
        ensures
            deserialize_result(input@, beacon_parse(input@), r),
    {
        let (rest, ss) = take_le16(input)?;
        let (rest, gts) = take_u8(rest)?;
        let (rest, pending_addresses) = take_u8(rest)?;
        assert(gts == input@[2]);
        assert(pending_addresses == input@[3]);
        assert(rest@ =~= input@.skip(4));
        if gts != 0 || pending_addresses != 0 {
            Err(SerializeError::Unimplemented("Beacon frame, GTS or pending addresses not empty"))
        } else {
            let payload = take_all(rest);
            let (_, end) = rest.split_at(rest.len());
            assert(end@ =~= input@.skip(input@.len() as int));
            Ok(
                (
                    end,
                    Beacon {
                        beacon_order: (ss & 0xF) as usize,
                        superframe_order: ((ss >> 4u16) & 0xF) as usize,
                        final_cap_slot: ((ss >> 8u16) & 0xF) as usize,
                        battery_life_extension: (ss >> 12u16) & 1 != 0,
                        pan_coordinator: (ss >> 14u16) & 1 != 0,
                        association_permit: (ss >> 15u16) & 1 != 0,
                        pending_short_addresses: Vec::new(),
                        pending_long_addresses: Vec::new(),
                        payload,
                    },
                ),
            )
        }
    }
}

/// Maps a command decoding error to a frame decoding error.
fn command_serialize_error(e: UnpackError) -> (r: SerializeError)
    ensures
        r == command_error(e),
{
    match e {
        UnpackError::NotEnoughData => SerializeError::InsufficientData,
        UnpackError::InvalidEnumTag => SerializeError::UnexpectedData,
        UnpackError::Unsupported(_) => SerializeError::UnexpectedData,
        UnpackError::Unimplemented(_) => SerializeError::Unimplemented("Unimplemented MAC command"),
    }
}

impl FrameType {
    /// The frame type field.
    pub fn get_tag(&self) -> (r: u16)
        ensures
            r == frame_type_tag(self@),
    {
        match self {
            FrameType::Beacon(_) => 0,
            FrameType::Data(_) => 1,
            FrameType::Ack => 2,
            FrameType::Command(_) => 3,
            FrameType::Reserved => 4,
            FrameType::Multipurpose => 5,
            FrameType::Fragment => 6,
            FrameType::Extended => 7,
        }
    }

    /// Appends what follows the header for this frame type.
    pub fn serialize_data_to(&self, target: &mut Vec<u8>) -> (r: Result<(), SerializeError>)
        ensures
            match frame_type_data_bytes(self@) {
                Ok(b) => r is Ok && final(target)@ == old(target)@ + b,
                Err(e) => r == Err::<(), SerializeError>(e) && final(target)@ == old(target)@,
            },
    {
        match self {
            FrameType::Beacon(b) => b.serialize_to(target),
            FrameType::Data(d) => {
                extend_from(target, d.as_slice());
                Ok(())
            },
            FrameType::Command(c) => {
                match c.pack(VecPackTarget::new()) {
                    Ok(t) => {
                        let bytes = t.into_vec();
                        assert(bytes@ =~= command_bytes(*c));
                        extend_from(target, bytes.as_slice());
                        Ok(())
                    },
                    Err(_) => {
                        assert(false);
                        Ok(())
                    },
                }
            },
            _ => {
                assert(old(target)@ + Seq::<u8>::empty() =~= old(target)@);
                Ok(())
            },
        }
    }

    /// Decodes what follows the header, for frame type field `tag`.
    pub fn deserialize_data(tag: u16, input: &[u8]) -> (r: Result<(&[u8], FrameType), SerializeError>)
        ensures
            deserialize_result(input@, frame_type_parse(tag, input@), r),
    {
        assert(input@.skip(0) =~= input@);
        if tag == 0 {
            let (rest, b) = Beacon::deserialize(input)?;
            Ok((rest, FrameType::Beacon(b)))
        } else if tag == 1 {
            let data = take_all(input);
            let (_, end) = input.split_at(input.len());
            assert(end@ =~= input@.skip(input@.len() as int));
            Ok((end, FrameType::Data(data)))
        } else if tag == 2 {
            Ok((input, FrameType::Ack))
        } else if tag == 3 {
            match Command::unpack(input) {
                Ok((c, rest)) => Ok((rest, FrameType::Command(c))),
                Err(e) => Err(command_serialize_error(e)),
            }
        } else if tag == 4 {
            Ok((input, FrameType::Reserved))
        } else if tag == 5 {
            Ok((input, FrameType::Multipurpose))
        } else if tag == 6 {
            Ok((input, FrameType::Fragment))
        } else if tag == 7 {
            Ok((input, FrameType::Extended))
        } else {
            Err(SerializeError::UnexpectedData)
        }
    }
}

impl Frame {
    /// The acknowledgement for this frame, if it asks for one.
    pub fn create_ack(&self, frame_pending: bool) -> (r: Option<Frame>)
        ensures
            !self.acknowledge_request ==> r is None,
            self.acknowledge_request ==> (r matches Some(a) && a@ == (FrameView {
                frame_pending,
                acknowledge_request: false,
                sequence_number: self.sequence_number,
                destination: AddressSpecification::NotPresent,
                source: AddressSpecification::NotPresent,
                frame_type: FrameTypeView::Ack,
            })),
    {
        if !self.acknowledge_request {
            None
        } else {
            Some(
                Frame {
                    frame_pending,
                    acknowledge_request: false,
                    sequence_number: self.sequence_number,
                    destination: AddressSpecification::NotPresent,
                    source: AddressSpecification::NotPresent,
                    frame_type: FrameType::Ack,
                },
            )
        }
    }

    /// The sequence number the acknowledgement of this frame will carry, if
    /// it asks for one.
    pub fn expect_ack(&self) -> (r: Option<u8>)
        ensures
            r == (if self.acknowledge_request {
                self.sequence_number
            } else {
                None
            }),
    {
        if !self.acknowledge_request {
            None
        } else {
            self.sequence_number
        }
    }

    /// Appends the encoded frame. When the payload cannot be encoded the
    /// header has been written already.
    pub fn serialize_to(&self, target: &mut Vec<u8>) -> (r: Result<(), SerializeError>)
        ensures
            match frame_bytes(self@) {
                Ok(b) => r is Ok && final(target)@ == old(target)@ + b,
                Err(e) => r == Err::<(), SerializeError>(e) && final(target)@ == old(target)@ + frame_header_bytes(self@),
            },
    {
        let frame_type = self.frame_type.get_tag();
        let destination_pan = self.destination.pan_id();
        let source_pan = self.source.pan_id();
        let pan_id_compression = same_pan_id(source_pan, destination_pan) && source_pan.is_some();
        let fc: u16 = frame_type | (bit_flag(self.frame_pending) << 4u16) | (bit_flag(self.acknowledge_request)
            << 5u16) | (bit_flag(pan_id_compression) << 6u16) | (bit_flag(self.sequence_number.is_none())
            << 8u16) | (self.destination.serialize_tag() << 10u16) | (self.source.serialize_tag() << 14u16);
        assert(fc == frame_control(self@));
        push_le16(target, fc);
        let ghost after_fc = target@;
        match self.sequence_number {
            Some(x) => {
                target.push(x);
            },
            None => {},
        }
        assert(target@ =~= after_fc + sequence_number_bytes(self.sequence_number));
        self.destination.serialize_to(false, target)?;
        self.source.serialize_to(pan_id_compression, target)?;
        assert(target@ =~= old(target)@ + frame_header_bytes(self@));
        let ghost header = target@;
        let r = self.frame_type.serialize_data_to(target);
        proof {
            if let Ok(d) = frame_type_data_bytes(self.frame_type@) {
                assert(header + d =~= old(target)@ + (frame_header_bytes(self@) + d));
            }
        }
        r
    }

    /// The encoded frame.
    pub fn serialize(&self) -> (r: Result<Vec<u8>, SerializeError>)
        ensures
            match frame_bytes(self@) {
                Ok(b) => r matches Ok(v) && v@ == b,
                Err(e) => r == Err::<Vec<u8>, SerializeError>(e),
            },
    {
        let mut target: Vec<u8> = Vec::new();
        match self.serialize_to(&mut target) {
            Ok(()) => {
                assert(target@ =~= frame_bytes(self@)->Ok_0);
                Ok(target)
            },
            Err(e) => Err(e),
        }
    }

    /// Decodes the frame type and what follows it, once the header is known.
    fn deserialize_payload(
        fc: u16,
        sequence_number: Option<u8>,
        destination: AddressSpecification,
        source: AddressSpecification,
        input: &[u8],
    ) -> (r: Result<(&[u8], Frame), SerializeError>)
        ensures
            deserialize_result(input@, frame_payload_parse(fc, sequence_number, destination, source, input@), r),
    {
        let (rest, frame_type) = FrameType::deserialize_data(fc & 7, input)?;
        let frame_pending = (fc >> 4u16) & 1 != 0;
        let acknowledge_request = (fc >> 5u16) & 1 != 0;
        Ok(
            (
                rest,
                Frame { frame_pending, acknowledge_request, sequence_number, destination, source, frame_type },
            ),
        )
    }

    /// Decodes the source address and the rest, once the destination is known.
    fn deserialize_source(
        fc: u16,
        sequence_number: Option<u8>,
        destination: AddressSpecification,
        input: &[u8],
    ) -> (r: Result<(&[u8], Frame), SerializeError>)
        ensures
            deserialize_result(input@, frame_source_parse(fc, sequence_number, destination, input@), r),
    {
        let use_panid = if (fc >> 6u16) & 1 != 0 {
            destination.pan_id()
        } else {
            None
        };
        let (rest, source) = AddressSpecification::deserialize((fc >> 14u16) & 3, use_panid, input)?;
        let ghost n: nat = address_parse((fc >> 14u16) & 3, use_panid, input@)->Ok_0.1;
        let (rest2, frame) = Frame::deserialize_payload(fc, sequence_number, destination, source, rest)?;
        proof {
            let m = frame_payload_parse(fc, sequence_number, destination, source, rest@)->Ok_0.1;
            assert(rest2@ =~= input@.skip((n + m) as int));
        }
        Ok((rest2, frame))
    }

    /// Decodes the destination address and the rest, once the sequence number
    /// is known.
    fn deserialize_destination(fc: u16, sequence_number: Option<u8>, input: &[u8]) -> (r: Result<(&[u8], Frame), SerializeError>)
        ensures
            deserialize_result(input@, frame_destination_parse(fc, sequence_number, input@), r),
    {
        let (rest, destination) = AddressSpecification::deserialize((fc >> 10u16) & 3, None, input)?;
        let ghost n: nat = address_parse((fc >> 10u16) & 3, None, input@)->Ok_0.1;
        let (rest2, frame) = Frame::deserialize_source(fc, sequence_number, destination, rest)?;
        proof {
            let m = frame_source_parse(fc, sequence_number, destination, rest@)->Ok_0.1;
            assert(rest2@ =~= input@.skip((n + m) as int));
        }
        Ok((rest2, frame))
    }

    /// Decodes what follows frame control field `fc`.
    fn deserialize_after_control(fc: u16, input: &[u8]) -> (r: Result<(&[u8], Frame), SerializeError>)
        ensures
            deserialize_result(input@, frame_after_control_parse(fc, input@), r),
    {
        let (rest, sequence_number) = if (fc >> 8u16) & 1 == 0 {
            let (rest, x) = take_u8(input)?;
            (rest, Some(x))
        } else {
            assert(input@.skip(0) =~= input@);
            (input, None)
        };
        let ghost n: nat = if (fc >> 8u16) & 1 == 0 { 1 } else { 0 };
        let (rest2, frame) = Frame::deserialize_destination(fc, sequence_number, rest)?;
        proof {
            let m = frame_destination_parse(fc, sequence_number, rest@)->Ok_0.1;
            assert(rest2@ =~= input@.skip((n + m) as int));
        }
        Ok((rest2, frame))
    }

    /// Decodes a frame from the front of `input`; returns what is left and
    /// the frame.
    pub fn deserialize(input: &[u8]) -> (r: Result<(&[u8], Frame), SerializeError>)
        ensures
            deserialize_result(input@, frame_parse(input@), r),
    {
        let (rest, fc) = take_le16(input)?;
        let (rest2, frame) = Frame::deserialize_after_control(fc, rest)?;
        proof {
            let m = frame_after_control_parse(fc, rest@)->Ok_0.1;
            assert(rest2@ =~= input@.skip((m + 2) as int));
        }
        Ok((rest2, frame))
    }

    /// Decodes a frame that takes all of `input`.
    pub fn deserialize_complete(input: &[u8]) -> (r: Result<Frame, SerializeError>)
        ensures
            match frame_parse(input@) {
                Ok((f, n)) => if n == input@.len() {
                    r matches Ok(g) && g@ == f
                } else {
                    r == Err::<Frame, SerializeError>(SerializeError::DataLeft)
                },
                Err(e) => r == Err::<Frame, SerializeError>(e),
            },
    {
        match Frame::deserialize(input) {
            Ok((rest, frame)) => {
                if rest.len() == 0 {
                    Ok(frame)
                } else {
                    Err(SerializeError::DataLeft)
                }
            },
            Err(e) => Err(e),
        }
    }
}

/*=== Conversions ===*/

impl From<(PANID, ShortAddress)> for AddressSpecification {
    fn from(item: (PANID, ShortAddress)) -> (r: Self) {
        AddressSpecification::Short(item.0, item.1)
    }
}

impl vstd::std_specs::convert::FromSpecImpl<(PANID, ShortAddress)> for AddressSpecification {
    open spec fn obeys_from_spec() -> bool {
        true
    }

    open spec fn from_spec(item: (PANID, ShortAddress)) -> AddressSpecification {
        AddressSpecification::Short(item.0, item.1)
    }
}

impl From<(PANID, ExtendedAddress)> for AddressSpecification {
    fn from(item: (PANID, ExtendedAddress)) -> (r: Self) {
        AddressSpecification::Extended(item.0, item.1)
    }
}

impl vstd::std_specs::convert::FromSpecImpl<(PANID, ExtendedAddress)> for AddressSpecification {
    open spec fn obeys_from_spec() -> bool {
        true
    }

    open spec fn from_spec(item: (PANID, ExtendedAddress)) -> AddressSpecification {
        AddressSpecification::Extended(item.0, item.1)
    }
}

impl From<Option<(PANID, ShortAddress)>> for AddressSpecification {
    fn from(item: Option<(PANID, ShortAddress)>) -> (r: Self) {
        match item {
            None => AddressSpecification::NotPresent,
            Some((panid, address)) => AddressSpecification::Short(panid, address),
        }
    }
}

impl vstd::std_specs::convert::FromSpecImpl<Option<(PANID, ShortAddress)>> for AddressSpecification {
    open spec fn obeys_from_spec() -> bool {
        true
    }

    open spec fn from_spec(item: Option<(PANID, ShortAddress)>) -> AddressSpecification {
        match item {
            None => AddressSpecification::NotPresent,
            Some((panid, address)) => AddressSpecification::Short(panid, address),
        }
    }
}

impl From<Option<(PANID, ExtendedAddress)>> for AddressSpecification {
    fn from(item: Option<(PANID, ExtendedAddress)>) -> (r: Self) {
        match item {
            None => AddressSpecification::NotPresent,
            Some((panid, address)) => AddressSpecification::Extended(panid, address),
        }
    }
}

impl vstd::std_specs::convert::FromSpecImpl<Option<(PANID, ExtendedAddress)>> for AddressSpecification {
    open spec fn obeys_from_spec() -> bool {
        true
    }

    open spec fn from_spec(item: Option<(PANID, ExtendedAddress)>) -> AddressSpecification {
        match item {
            None => AddressSpecification::NotPresent,
            Some((panid, address)) => AddressSpecification::Extended(panid, address),
        }
    }
}

impl From<AddressSpecification> for Option<PANID> {
    fn from(item: AddressSpecification) -> (r: Self) {
        item.pan_id()
    }
}

impl vstd::std_specs::convert::FromSpecImpl<AddressSpecification> for Option<PANID> {
    open spec fn obeys_from_spec() -> bool {
        true
    }

    open spec fn from_spec(item: AddressSpecification) -> Option<PANID> {
        address_pan_id(item)
    }
}

/*=== Addresses as the MAC services use them ===*/

/// A device address, short or extended.
#[derive(Debug, PartialEq, Eq, Structural, Hash, Clone, Copy)]
pub enum Address {
    Short(ShortAddress),
    Extended(ExtendedAddress),
}

/// A device address with the PAN it belongs to.
#[derive(Debug, PartialEq, Eq, Structural, Hash, Clone, Copy)]
pub struct FullAddress {
    pub pan_id: PANID,
    pub address: Address,
}

/// Which kind of address a request asks for.
#[derive(Debug, PartialEq, Eq, Structural, Hash, Clone, Copy)]
pub enum AddressingMode {
    NotPresent,
    Reserved,
    Short,
    Extended,
}

/// The address specification of an optional full address.
pub open spec fn specification_of(address: Option<FullAddress>) -> AddressSpecification {
    match address {
        None => AddressSpecification::NotPresent,
        Some(FullAddress { pan_id, address: Address::Short(a) }) => AddressSpecification::Short(pan_id, a),
        Some(FullAddress { pan_id, address: Address::Extended(a) }) => AddressSpecification::Extended(pan_id, a),
    }
}

/// The full address of an address specification, if it holds one.
pub open spec fn full_address_of(spec: AddressSpecification) -> Option<FullAddress> {
    match spec {
        AddressSpecification::NotPresent => None,
        AddressSpecification::Short(pan_id, a) => Some(FullAddress { pan_id, address: Address::Short(a) }),
        AddressSpecification::Extended(pan_id, a) => Some(FullAddress { pan_id, address: Address::Extended(a) }),
    }
}

impl From<Option<FullAddress>> for AddressSpecification {
    fn from(address: Option<FullAddress>) -> (r: Self) {
        match address {
            None => AddressSpecification::NotPresent,
            Some(FullAddress { pan_id, address: Address::Short(a) }) => AddressSpecification::Short(pan_id, a),
            Some(FullAddress { pan_id, address: Address::Extended(a) }) => AddressSpecification::Extended(pan_id, a),
        }
    }
}

impl vstd::std_specs::convert::FromSpecImpl<Option<FullAddress>> for AddressSpecification {
    open spec fn obeys_from_spec() -> bool {
        true
    }

    open spec fn from_spec(address: Option<FullAddress>) -> AddressSpecification {
        specification_of(address)
    }
}

impl From<AddressSpecification> for Option<FullAddress> {
    fn from(spec: AddressSpecification) -> (r: Self) {
        match spec {
            AddressSpecification::NotPresent => None,
            AddressSpecification::Short(pan_id, a) => Some(FullAddress { pan_id, address: Address::Short(a) }),
            AddressSpecification::Extended(pan_id, a) => Some(FullAddress { pan_id, address: Address::Extended(a) }),
        }
    }
}

impl vstd::std_specs::convert::FromSpecImpl<AddressSpecification> for Option<FullAddress> {
    open spec fn obeys_from_spec() -> bool {
        true
    }

    open spec fn from_spec(spec: AddressSpecification) -> Option<FullAddress> {
        full_address_of(spec)
    }
}


/*=== The frame control field on its own ===*/

/// The frame control field (7.2.1), read field by field.
#[derive(Debug, Clone, Copy, PartialEq, Eq, Structural)]
pub struct FrameControl(pub u16);

impl FrameControl {
    /// Bits 0-2.
    pub fn frame_type(&self) -> (r: u16)
        ensures
            r == self.0 & 7,
    {
        self.0 & 7
    }

    /// Bit 3.
    pub fn security_enabled(&self) -> (r: u16)
        ensures
            r == (self.0 >> 3u16) & 1,
    {
        (self.0 >> 3u16) & 1
    }

    /// Bit 4.
    pub fn frame_pending(&self) -> (r: u16)
        ensures
            r == (self.0 >> 4u16) & 1,
    {
        (self.0 >> 4u16) & 1
    }

    /// Bit 5.
    pub fn acknowledge_request(&self) -> (r: u16)
        ensures
            r == (self.0 >> 5u16) & 1,
    {
        (self.0 >> 5u16) & 1
    }

    /// Bit 6.
    pub fn pan_id_compression(&self) -> (r: u16)
        ensures
            r == (self.0 >> 6u16) & 1,
    {
        (self.0 >> 6u16) & 1
    }

    /// Bit 7.
    pub fn reserved(&self) -> (r: u16)
        ensures
            r == (self.0 >> 7u16) & 1,
    {
        (self.0 >> 7u16) & 1
    }

    /// Bit 8.
    pub fn sequence_number_supression(&self) -> (r: u16)
        ensures
            r == (self.0 >> 8u16) & 1,
    {
        (self.0 >> 8u16) & 1
    }

    /// Bit 9.
    pub fn information_elements_present(&self) -> (r: u16)
        ensures
            r == (self.0 >> 9u16) & 1,
    {
        (self.0 >> 9u16) & 1
    }

    /// Bits 10-11.
    pub fn destination_addressing_mode(&self) -> (r: u16)
        ensures
            r == (self.0 >> 10u16) & 3,
    {
        (self.0 >> 10u16) & 3
    }

    /// Bits 12-13.
    pub fn frame_version(&self) -> (r: u16)
        ensures
            r == (self.0 >> 12u16) & 3,
    {
        (self.0 >> 12u16) & 3
    }

    /// Bits 14-15.
    pub fn source_addressing_mode(&self) -> (r: u16)
        ensures
            r == (self.0 >> 14u16) & 3,
    {
        (self.0 >> 14u16) & 3
    }

    /// Decodes a frame control field that takes all of `input` (two bytes,
    /// little endian).
    pub fn deserialize_complete(input: &[u8]) -> (r: Result<FrameControl, SerializeError>)
        ensures
            input@.len() < 2 ==> r == Err::<FrameControl, SerializeError>(SerializeError::InsufficientData),
            input@.len() == 2 ==> r == Ok::<FrameControl, SerializeError>(FrameControl(read_le16(input@))),
            input@.len() > 2 ==> r == Err::<FrameControl, SerializeError>(SerializeError::DataLeft),
    {
        let (rest, x) = take_le16(input)?;
        if rest.len() == 0 {
            Ok(FrameControl(x))
        } else {
            Err(SerializeError::DataLeft)
        }
    }

    /// The two bytes of the field, little endian.
    pub fn serialize(&self) -> (r: Result<Vec<u8>, SerializeError>)
        ensures
            r matches Ok(v) && v@ == le16(self.0),
    {
        let mut v: Vec<u8> = Vec::new();
        push_le16(&mut v, self.0);
        assert(v@ =~= le16(self.0));
        Ok(v)
    }
}

} // verus!
