//! A reader of received MAC frames that keeps the PAN identifiers and the
//! addresses apart, and hands the payload on as it is.
use crate::ieee802154::mac::frame::FrameControl;
use crate::ieee802154::{ExtendedAddress, ShortAddress, PANID};
use crate::parse_serialize::{read_le16, read_le64, take_all, take_le16, take_le64, take_u8, SerializeError};
use vstd::prelude::*;

verus! {

/// Why a frame could not be read.
#[derive(Debug, Clone, Copy, PartialEq, Eq, Structural)]
pub enum ParseError {
    InsufficientData,
    UnexpectedData,
    UnimplementedBehaviour,
}

/// An address field, by addressing mode.
#[derive(Debug, Clone, Copy, PartialEq, Eq, Structural)]
pub enum AddressSpecification {
    NotPresent,
    Reserved,
    Short(ShortAddress),
    Extended(ExtendedAddress),
}

/// The device type of an association request.
#[derive(Debug, Clone, Copy, PartialEq, Eq, Structural)]
pub enum MACDeviceType {
    RFD,
}

/// The power source of an association request.
#[derive(Debug, Clone, Copy, PartialEq, Eq, Structural)]
pub enum MACPowerSource {
    Battery,
}

/// The MAC commands this reader knows.
#[derive(Debug, Clone, Copy, PartialEq, Eq, Structural)]
pub enum MACCommand {
    AssociationRequest {
        alternate_pan_coordinator: bool,
        device_type: MACDeviceType,
        power_source: MACPowerSource,
        receive_on_when_idle: bool,
        security_capability: bool,
        allocate_address: bool,
    },
    DataRequest,
    BeaconRequest,
}

/// The frame types this reader knows, with what it reads of them.
#[derive(Debug, Clone, Copy, PartialEq, Eq, Structural)]
pub enum MACFrameType {
    Beacon {
        beacon_order: usize,
        superframe_order: usize,
        final_cap_slot: usize,
        battery_life_extension: bool,
        pan_coordinator: bool,
        association_permit: bool,
    },
    Data,
    Ack,
    Command(MACCommand),
}

/// A frame as read: header fields, the frame type and the rest as payload.
#[derive(Debug, Clone, PartialEq, Eq)]
pub struct MACFrame {
    pub sequence_number: Option<u8>,
    pub destination_pan: Option<PANID>,
    pub destination: AddressSpecification,
    pub source_pan: Option<PANID>,
    pub source: AddressSpecification,
    pub frame_type: MACFrameType,
    pub payload: Vec<u8>,
}

/// The header of a frame as read.
pub struct MACHeaderView {
    pub sequence_number: Option<u8>,
    pub destination_pan: Option<PANID>,
    pub destination: AddressSpecification,
    pub source_pan: Option<PANID>,
    pub source: AddressSpecification,
}

/// A frame as read, with its payload as a sequence.
#[verifier::ext_equal]
pub struct MACFrameView {
    pub sequence_number: Option<u8>,
    pub destination_pan: Option<PANID>,
    pub destination: AddressSpecification,
    pub source_pan: Option<PANID>,
    pub source: AddressSpecification,
    pub frame_type: MACFrameType,
    pub payload: Seq<u8>,
}

impl View for MACFrame {
    type V = MACFrameView;

    open spec fn view(&self) -> MACFrameView {
        MACFrameView {
            sequence_number: self.sequence_number,
            destination_pan: self.destination_pan,
            destination: self.destination,
            source_pan: self.source_pan,
            source: self.source,
            frame_type: self.frame_type,
            payload: self.payload@,
        }
    }
}

/// Reading a `u8`, `u16` or `u64` fails only for want of data.
pub open spec fn insufficient() -> ParseError {
    ParseError::InsufficientData
}

/// Reading an optional PAN identifier: none when `absent`, the given one
/// when `given` is set, else two bytes.
pub open spec fn pan_parse(absent: bool, given: Option<Option<PANID>>, data: Seq<u8>) -> Result<(Option<PANID>, nat), ParseError> {
    if absent {
        Ok((None, 0))
    } else {
        match given {
            Some(p) => Ok((p, 0)),
            None => if data.len() < 2 {
                Err(insufficient())
            } else {
                Ok((Some(PANID(read_le16(data))), 2))
            },
        }
    }
}

/// Reading the address field of addressing mode `mode`.
pub open spec fn address_parse(mode: u16, data: Seq<u8>) -> Result<(AddressSpecification, nat), ParseError> {
    if mode == 0 {
        Ok((AddressSpecification::NotPresent, 0))
    } else if mode == 1 {
        Ok((AddressSpecification::Reserved, 0))
    } else if mode == 2 {
        if data.len() < 2 {
            Err(insufficient())
        } else {
            Ok((AddressSpecification::Short(ShortAddress(read_le16(data))), 2))
        }
    } else if mode == 3 {
        if data.len() < 8 {
            Err(insufficient())
        } else {
            Ok((AddressSpecification::Extended(ExtendedAddress(read_le64(data))), 8))
        }
    } else {
        Err(ParseError::UnexpectedData)
    }
}

/// Reading the source fields once the destination PAN is known.
pub open spec fn source_parse(fc: u16, destination_pan: Option<PANID>, data: Seq<u8>) -> Result<(Option<PANID>, AddressSpecification, nat), ParseError> {
    let mode = (fc >> 14u16) & 3;
    let given = if (fc >> 6u16) & 1 != 0 {
        Some(destination_pan)
    } else {
        None
    };
    match pan_parse(mode == 0, given, data) {
        Err(e) => Err(e),
        Ok((pan, n)) => match address_parse(mode, data.skip(n as int)) {
            Err(e) => Err(e),
            Ok((a, m)) => Ok((pan, a, n + m)),
        },
    }
}

/// Reading the destination fields.
pub open spec fn destination_parse(fc: u16, data: Seq<u8>) -> Result<(Option<PANID>, AddressSpecification, nat), ParseError> {
    let mode = (fc >> 10u16) & 3;
    match pan_parse(mode == 0, None, data) {
        Err(e) => Err(e),
        Ok((pan, n)) => match address_parse(mode, data.skip(n as int)) {
            Err(e) => Err(e),
            Ok((a, m)) => Ok((pan, a, n + m)),
        },
    }
}

/// Reading the header after the frame control field `fc`.
pub open spec fn header_parse(fc: u16, data: Seq<u8>) -> Result<(MACHeaderView, nat), ParseError> {
    let seq_result: Result<(Option<u8>, nat), ParseError> = if (fc >> 8u16) & 1 != 0 {
        Ok((None, 0))
    } else if data.len() < 1 {
        Err(insufficient())
    } else {
        Ok((Some(data[0]), 1))
    };
    match seq_result {
        Err(e) => Err(e),
        Ok((sequence_number, n1)) => match destination_parse(fc, data.skip(n1 as int)) {
            Err(e) => Err(e),
            Ok((destination_pan, destination, n2)) => match source_parse(
                fc,
                destination_pan,
                data.skip((n1 + n2) as int),
            ) {
                Err(e) => Err(e),
                Ok((source_pan, source, n3)) => Ok(
                    (MACHeaderView { sequence_number, destination_pan, destination, source_pan, source }, n1 + n2 + n3),
                ),
            },
        },
    }
}

/// Reading a MAC command: only data and beacon requests are known.
pub open spec fn command_parse(data: Seq<u8>) -> Result<(MACCommand, nat), ParseError> {
    if data.len() < 1 {
        Err(insufficient())
    } else if data[0] == 4 {
        Ok((MACCommand::DataRequest, 1))
    } else if data[0] == 7 {
        Ok((MACCommand::BeaconRequest, 1))
    } else {
        Err(ParseError::UnimplementedBehaviour)
    }
}

/// Reading the frame type fields for frame type `t`.
pub open spec fn frame_type_parse(t: u16, data: Seq<u8>) -> Result<(MACFrameType, nat), ParseError> {
    if t == 0 {
        if data.len() < 4 {
            Err(insufficient())
        } else if data[2] != 0 || data[3] != 0 {
            Err(ParseError::UnimplementedBehaviour)
        } else {
            let ss = read_le16(data);
            Ok(
                (
                    MACFrameType::Beacon {
                        beacon_order: (ss & 0xF) as usize,
                        superframe_order: ((ss >> 4u16) & 0xF) as usize,
                        final_cap_slot: ((ss >> 8u16) & 0xF) as usize,
                        battery_life_extension: (ss >> 12u16) & 1 != 0,
                        pan_coordinator: (ss >> 14u16) & 1 != 0,
                        association_permit: (ss >> 15u16) & 1 != 0,
                    },
                    4,
                ),
            )
        }
    } else if t == 1 {
        Ok((MACFrameType::Data, 0))
    } else if t == 2 {
        Ok((MACFrameType::Ack, 0))
    } else if t == 3 {
        match command_parse(data) {
            Err(e) => Err(e),
            Ok((c, n)) => Ok((MACFrameType::Command(c), n)),
        }
    } else {
        Err(ParseError::UnexpectedData)
    }
}

/// Reading a whole frame: what follows the frame type fields is the payload.
pub open spec fn mac_frame_parse(data: Seq<u8>) -> Result<MACFrameView, ParseError> {
    if data.len() < 2 {
        Err(insufficient())
    } else {
        let fc = read_le16(data);
        let d1 = data.skip(2);
        match header_parse(fc, d1) {
            Err(e) => Err(e),
            Ok((h, n)) => match frame_type_parse(fc & 7, d1.skip(n as int)) {
                Err(e) => Err(e),
                Ok((frame_type, m)) => Ok(
                    MACFrameView {
                        sequence_number: h.sequence_number,
                        destination_pan: h.destination_pan,
                        destination: h.destination,
                        source_pan: h.source_pan,
                        source: h.source,
                        frame_type,
                        payload: d1.skip(n as int).skip(m as int),
                    },
                ),
            },
        }
    }
}

/// The only failure of the byte readers is running out of data.
fn read_error(e: SerializeError) -> (r: ParseError)
    ensures
        r == insufficient(),
{
    ParseError::InsufficientData
}

impl FrameControl {
    /// Reads a frame control field: two bytes, least significant first.
    pub fn parse_from_buf(buf: &[u8]) -> (r: Result<(FrameControl, &[u8]), ParseError>)
        ensures
            buf@.len() < 2 ==> r == Err::<(FrameControl, &[u8]), ParseError>(ParseError::InsufficientData),
            buf@.len() >= 2 ==> (r matches Ok((fc, rest)) && fc.0 == read_le16(buf@) && rest@ == buf@.skip(2)),
    {
        match take_le16(buf) {
            Ok((rest, value)) => Ok((FrameControl(value), rest)),
            Err(e) => Err(read_error(e)),
        }
    }
}

impl AddressSpecification {
    /// Reads the address field of addressing mode `mode`.
    pub fn parse_from_buf(mode: u16, buf: &[u8]) -> (r: Result<(AddressSpecification, &[u8]), ParseError>)
        ensures
            match address_parse(mode, buf@) {
                Ok((a, n)) => r matches Ok((b, rest)) && b == a && rest@ == buf@.skip(n as int),
                Err(e) => r == Err::<(AddressSpecification, &[u8]), ParseError>(e),
            },
    {
        if mode == 0 {
            assert(buf@.skip(0) =~= buf@);
            Ok((AddressSpecification::NotPresent, buf))
        } else if mode == 1 {
            assert(buf@.skip(0) =~= buf@);
            Ok((AddressSpecification::Reserved, buf))
        } else if mode == 2 {
            match take_le16(buf) {
                Ok((rest, x)) => Ok((AddressSpecification::Short(ShortAddress(x)), rest)),
                Err(e) => Err(read_error(e)),
            }
        } else if mode == 3 {
            match take_le64(buf) {
                Ok((rest, x)) => Ok((AddressSpecification::Extended(ExtendedAddress(x)), rest)),
                Err(e) => Err(read_error(e)),
            }
        } else {
            Err(ParseError::UnexpectedData)
        }
    }
}

/// Reads an optional PAN identifier: none when `absent`, `given` when set,
/// else two bytes.
fn pan_from_buf(absent: bool, given: Option<Option<PANID>>, buf: &[u8]) -> (r: Result<(Option<PANID>, &[u8]), ParseError>)
    ensures
        match pan_parse(absent, given, buf@) {
            Ok((p, n)) => r matches Ok((q, rest)) && q == p && rest@ == buf@.skip(n as int),
            Err(e) => r == Err::<(Option<PANID>, &[u8]), ParseError>(e),
        },
{
    if absent {
        assert(buf@.skip(0) =~= buf@);
        Ok((None, buf))
    } else {
        match given {
            Some(p) => {
                assert(buf@.skip(0) =~= buf@);
                Ok((p, buf))
            },
            None => match take_le16(buf) {
                Ok((rest, x)) => Ok((Some(PANID(x)), rest)),
                Err(e) => Err(read_error(e)),
            },
        }
    }
}

impl MACCommand {
    /// Reads a MAC command; only data and beacon requests are known.
    pub fn parse_from_buf(buf: &[u8]) -> (r: Result<(MACCommand, &[u8]), ParseError>)
        ensures
            match command_parse(buf@) {
                Ok((c, n)) => r matches Ok((d, rest)) && d == c && rest@ == buf@.skip(n as int),
                Err(e) => r == Err::<(MACCommand, &[u8]), ParseError>(e),
            },
    {
        let (rest, command_id) = match take_u8(buf) {
            Ok(x) => x,
            Err(e) => {
                return Err(read_error(e));
            },
        };
        if command_id == 4 {
            Ok((MACCommand::DataRequest, rest))
        } else if command_id == 7 {
            Ok((MACCommand::BeaconRequest, rest))
        } else {
            Err(ParseError::UnimplementedBehaviour)
        }
    }
}

impl MACFrameType {
    /// Reads the fields of frame type `frame_type`.
    pub fn parse_from_buf(frame_type: u16, buf: &[u8]) -> (r: Result<(MACFrameType, &[u8]), ParseError>)
        ensures
            match frame_type_parse(frame_type, buf@) {
                Ok((t, n)) => r matches Ok((u, rest)) && u == t && rest@ == buf@.skip(n as int),
                Err(e) => r == Err::<(MACFrameType, &[u8]), ParseError>(e),
            },
    {
        assert(buf@.skip(0) =~= buf@);
        if frame_type == 0 {
            if buf.len() < 4 {
                return Err(ParseError::InsufficientData);
            }
            let (rest, ss) = match take_le16(buf) {
                Ok(x) => x,
                Err(e) => {
                    return Err(read_error(e));
                },
            };
            let (rest, gts) = match take_u8(rest) {
                Ok(x) => x,
                Err(e) => {
                    return Err(read_error(e));
                },
            };
            let (rest, pending_addresses) = match take_u8(rest) {
                Ok(x) => x,
                Err(e) => {
                    return Err(read_error(e));
                },
            };
            assert(gts == buf@[2] && pending_addresses == buf@[3]);
            assert(rest@ =~= buf@.skip(4));
            if gts != 0 || pending_addresses != 0 {
                Err(ParseError::UnimplementedBehaviour)
            } else {
                Ok(
                    (
                        MACFrameType::Beacon {
                            beacon_order: (ss & 0xF) as usize,
                            superframe_order: ((ss >> 4u16) & 0xF) as usize,
                            final_cap_slot: ((ss >> 8u16) & 0xF) as usize,
                            battery_life_extension: (ss >> 12u16) & 1 != 0,
                            pan_coordinator: (ss >> 14u16) & 1 != 0,
                            association_permit: (ss >> 15u16) & 1 != 0,
                        },
                        rest,
                    ),
                )
            }
        } else if frame_type == 1 {
            Ok((MACFrameType::Data, buf))
        } else if frame_type == 2 {
            Ok((MACFrameType::Ack, buf))
        } else if frame_type == 3 {
            let (c, rest) = MACCommand::parse_from_buf(buf)?;
            Ok((MACFrameType::Command(c), rest))
        } else {
            Err(ParseError::UnexpectedData)
        }
    }
}

impl MACFrame {
    /// Reads the destination PAN identifier and address.
    fn parse_destination(fc: u16, buf: &[u8]) -> (r: Result<(Option<PANID>, AddressSpecification, &[u8]), ParseError>)
        ensures
            match destination_parse(fc, buf@) {
                Ok((p, a, n)) => r matches Ok((q, b, rest)) && q == p && b == a && rest@ == buf@.skip(n as int),
                Err(e) => r matches Err(f) && f == e,
            },
    {
        let mode = (fc >> 10u16) & 3;
        let (pan, d1) = pan_from_buf(mode == 0, None, buf)?;
        let ghost n: nat = pan_parse(mode == 0, None, buf@)->Ok_0.1;
        let (address, d2) = AddressSpecification::parse_from_buf(mode, d1)?;
        let ghost m: nat = address_parse(mode, d1@)->Ok_0.1;
        assert(d2@ =~= buf@.skip((n + m) as int));
        Ok((pan, address, d2))
    }

    /// Reads the source PAN identifier and address; with PAN ID compression
    /// the PAN identifier is the destination's.
    fn parse_source(fc: u16, destination_pan: Option<PANID>, buf: &[u8]) -> (r: Result<
        (Option<PANID>, AddressSpecification, &[u8]),
        ParseError,
    >)
        ensures
            match source_parse(fc, destination_pan, buf@) {
                Ok((p, a, n)) => r matches Ok((q, b, rest)) && q == p && b == a && rest@ == buf@.skip(n as int),
                Err(e) => r matches Err(f) && f == e,
            },
    {
        let mode = (fc >> 14u16) & 3;
        let given = if (fc >> 6u16) & 1 != 0 {
            Some(destination_pan)
        } else {
            None
        };
        let (pan, d1) = pan_from_buf(mode == 0, given, buf)?;
        let ghost n: nat = pan_parse(mode == 0, given, buf@)->Ok_0.1;
        let (address, d2) = AddressSpecification::parse_from_buf(mode, d1)?;
        let ghost m: nat = address_parse(mode, d1@)->Ok_0.1;
        assert(d2@ =~= buf@.skip((n + m) as int));
        Ok((pan, address, d2))
    }

    /// Reads the header fields after frame control field `fc`.
    fn parse_header(fc: u16, buf: &[u8]) -> (r: Result<
        (Option<u8>, Option<PANID>, AddressSpecification, Option<PANID>, AddressSpecification, &[u8]),
        ParseError,
    >)
        ensures
            match header_parse(fc, buf@) {
                Ok((h, n)) => r matches Ok((s, dp, d, sp, so, rest)) && s == h.sequence_number && dp
                    == h.destination_pan && d == h.destination && sp == h.source_pan && so == h.source && rest@
                    == buf@.skip(n as int),
                Err(e) => r matches Err(f) && f == e,
            },
    {
        let (sequence_number, d1) = if (fc >> 8u16) & 1 != 0 {
            assert(buf@.skip(0) =~= buf@);
            (None, buf)
        } else {
            match take_u8(buf) {
                Ok((rest, x)) => (Some(x), rest),
                Err(e) => {
                    return Err(read_error(e));
                },
            }
        };
        let ghost n1: nat = if (fc >> 8u16) & 1 != 0 { 0 } else { 1 };
        let (destination_pan, destination, d2) = MACFrame::parse_destination(fc, d1)?;
        let ghost n2: nat = destination_parse(fc, d1@)->Ok_0.2;
        let (source_pan, source, d3) = MACFrame::parse_source(fc, destination_pan, d2)?;
        let ghost n3: nat = source_parse(fc, destination_pan, d2@)->Ok_0.2;
        proof {
            assert(d2@ =~= buf@.skip((n1 + n2) as int));
            assert(d3@ =~= buf@.skip((n1 + n2 + n3) as int));
        }
        Ok((sequence_number, destination_pan, destination, source_pan, source, d3))
    }

    /// Reads a whole frame; what follows the frame type fields is the
    /// payload.
    pub fn parse_from_buf(buf: &[u8]) -> (r: Result<MACFrame, ParseError>)
        ensures
            match mac_frame_parse(buf@) {
                Ok(f) => r matches Ok(g) && g@ == f,
                Err(e) => r == Err::<MACFrame, ParseError>(e),
            },
    {
        let (d1, fc) = match take_le16(buf) {
            Ok(x) => x,
            Err(e) => {
                return Err(read_error(e));
            },
        };
        let (sequence_number, destination_pan, destination, source_pan, source, d2) = MACFrame::parse_header(
            fc,
            d1,
        )?;
        let (frame_type, d3) = MACFrameType::parse_from_buf(fc & 7, d2)?;
        let payload = take_all(d3);
        Ok(MACFrame { sequence_number, destination_pan, destination, source_pan, source, frame_type, payload })
    }
}

} // verus!
