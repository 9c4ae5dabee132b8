//! MAC command frames (IEEE Std 802.15.4-2015, 7.5).
use crate::ieee802154::ShortAddress;
use crate::pack::{
    append_bytes, split, ExtEnum, ExtEnumError, Pack, PackError, PackTagged, PackTarget,
    UnpackError,
};
use vstd::bytes::*;
use vstd::prelude::*;

verus! {

/// The device type bit of the capability information (7.5.2).
#[derive(Debug, Clone, Copy, PartialEq, Eq, Structural, Hash)]
pub enum DeviceType {
    RFD,
    FFD,
}

/// The power source bit of the capability information (7.5.2).
#[derive(Debug, Clone, Copy, PartialEq, Eq, Structural, Hash)]
pub enum PowerSource {
    Battery,
    AC,
}

/// Association failures (7.5.3, table 7-50).
#[derive(Debug, Clone, Copy, PartialEq, Eq, Structural, Hash)]
pub enum AssociationError {
    PANAtCapacity,
    PANAccessDenied,
    HoppingSequenceOffset,
}

/// The tag of a device type.
pub open spec fn device_type_tag(d: DeviceType) -> u8 {
    match d {
        DeviceType::RFD => 0,
        DeviceType::FFD => 1,
    }
}

/// The device type named by a tag.
pub open spec fn device_type_of(tag: u8) -> Option<DeviceType> {
    if tag == 0 {
        Some(DeviceType::RFD)
    } else if tag == 1 {
        Some(DeviceType::FFD)
    } else {
        None
    }
}

/// The tag of a power source.
pub open spec fn power_source_tag(p: PowerSource) -> u8 {
    match p {
        PowerSource::Battery => 0,
        PowerSource::AC => 1,
    }
}

/// The power source named by a tag.
pub open spec fn power_source_of(tag: u8) -> Option<PowerSource> {
    if tag == 0 {
        Some(PowerSource::Battery)
    } else if tag == 1 {
        Some(PowerSource::AC)
    } else {
        None
    }
}

/// The status code of an association failure.
pub open spec fn association_error_tag(e: AssociationError) -> u8 {
    match e {
        AssociationError::PANAtCapacity => 1,
        AssociationError::PANAccessDenied => 2,
        AssociationError::HoppingSequenceOffset => 3,
    }
}

/// The association failure named by a status code.
pub open spec fn association_error_of(tag: u8) -> Option<AssociationError> {
    if tag == 1 {
        Some(AssociationError::PANAtCapacity)
    } else if tag == 2 {
        Some(AssociationError::PANAccessDenied)
    } else if tag == 3 {
        Some(AssociationError::HoppingSequenceOffset)
    } else {
        None
    }
}

impl ExtEnum for DeviceType {
    type Tag = u8;

    fn into_tag(&self) -> (r: u8)
        ensures
            r == device_type_tag(*self),
    {
        match self {
            DeviceType::RFD => 0,
            DeviceType::FFD => 1,
        }
    }

    fn try_from_tag(value: u8) -> (r: Result<Self, ExtEnumError>)
        ensures
            r == match device_type_of(value) {
                Some(d) => Ok::<DeviceType, ExtEnumError>(d),
                None => Err(ExtEnumError::InvalidTag),
            },
    {
        if value == 0 {
            Ok(DeviceType::RFD)
        } else if value == 1 {
            Ok(DeviceType::FFD)
        } else {
            Err(ExtEnumError::InvalidTag)
        }
    }
}

impl ExtEnum for PowerSource {
    type Tag = u8;

    fn into_tag(&self) -> (r: u8)
        ensures
            r == power_source_tag(*self),
    {
        match self {
            PowerSource::Battery => 0,
            PowerSource::AC => 1,
        }
    }

    fn try_from_tag(value: u8) -> (r: Result<Self, ExtEnumError>)
        ensures
            r == match power_source_of(value) {
                Some(p) => Ok::<PowerSource, ExtEnumError>(p),
                None => Err(ExtEnumError::InvalidTag),
            },
    {
        if value == 0 {
            Ok(PowerSource::Battery)
        } else if value == 1 {
            Ok(PowerSource::AC)
        } else {
            Err(ExtEnumError::InvalidTag)
        }
    }
}

impl ExtEnum for AssociationError {
    type Tag = u8;

    fn into_tag(&self) -> (r: u8)
        ensures
            r == association_error_tag(*self),
    {
        match self {
            AssociationError::PANAtCapacity => 1,
            AssociationError::PANAccessDenied => 2,
            AssociationError::HoppingSequenceOffset => 3,
        }
    }

    fn try_from_tag(value: u8) -> (r: Result<Self, ExtEnumError>)
        ensures
            r == match association_error_of(value) {
                Some(e) => Ok::<AssociationError, ExtEnumError>(e),
                None => Err(ExtEnumError::InvalidTag),
            },
    {
        if value == 1 {
            Ok(AssociationError::PANAtCapacity)
        } else if value == 2 {
            Ok(AssociationError::PANAccessDenied)
        } else if value == 3 {
            Ok(AssociationError::HoppingSequenceOffset)
        } else {
            Err(ExtEnumError::InvalidTag)
        }
    }
}

impl Pack for DeviceType {
    open spec fn spec_pack(&self) -> Option<Seq<u8>> {
        Some(seq![device_type_tag(*self)])
    }

    open spec fn spec_unpack(data: Seq<u8>) -> Result<(DeviceType, nat), UnpackError> {
        if data.len() < 1 {
            Err(UnpackError::NotEnoughData)
        } else {
            match device_type_of(data[0]) {
                Some(d) => Ok((d, 1)),
                None => Err(UnpackError::InvalidEnumTag),
            }
        }
    }

    fn unpack(data: &[u8]) -> (r: Result<(Self, &[u8]), UnpackError>) {
        let (tag, rest) = u8::unpack(data)?;
        match DeviceType::try_from_tag(tag) {
            Ok(d) => Ok((d, rest)),
            Err(_) => Err(UnpackError::InvalidEnumTag),
        }
    }

    fn pack<T: PackTarget>(&self, target: T) -> (r: Result<T, PackError<T::Error>>) {
        self.into_tag().pack(target)
    }
}

impl PackTagged for DeviceType {
    type Tag = u8;

    open spec fn spec_tag(&self) -> u8 {
        device_type_tag(*self)
    }

    open spec fn spec_pack_data(&self) -> Option<Seq<u8>> {
        Some(Seq::empty())
    }

    open spec fn spec_unpack_data(tag: u8, data: Seq<u8>) -> Result<(DeviceType, nat), UnpackError> {
        match device_type_of(tag) {
            Some(d) => Ok((d, 0)),
            None => Err(UnpackError::InvalidEnumTag),
        }
    }

    fn get_tag(&self) -> (r: u8) {
        self.into_tag()
    }

    fn unpack_data(tag: u8, data: &[u8]) -> (r: Result<(Self, &[u8]), UnpackError>) {
        assert(data@.skip(0) =~= data@);
        match DeviceType::try_from_tag(tag) {
            Ok(d) => Ok((d, data)),
            Err(_) => Err(UnpackError::InvalidEnumTag),
        }
    }

    fn pack_data<T: PackTarget>(&self, target: T) -> (r: Result<T, PackError<T::Error>>) {
        ().pack(target)
    }
}

impl Pack for PowerSource {
    open spec fn spec_pack(&self) -> Option<Seq<u8>> {
        Some(seq![power_source_tag(*self)])
    }

    open spec fn spec_unpack(data: Seq<u8>) -> Result<(PowerSource, nat), UnpackError> {
        if data.len() < 1 {
            Err(UnpackError::NotEnoughData)
        } else {
            match power_source_of(data[0]) {
                Some(p) => Ok((p, 1)),
                None => Err(UnpackError::InvalidEnumTag),
            }
        }
    }

    fn unpack(data: &[u8]) -> (r: Result<(Self, &[u8]), UnpackError>) {
        let (tag, rest) = u8::unpack(data)?;
        match PowerSource::try_from_tag(tag) {
            Ok(p) => Ok((p, rest)),
            Err(_) => Err(UnpackError::InvalidEnumTag),
        }
    }

    fn pack<T: PackTarget>(&self, target: T) -> (r: Result<T, PackError<T::Error>>) {
        self.into_tag().pack(target)
    }
}

impl PackTagged for PowerSource {
    type Tag = u8;

    open spec fn spec_tag(&self) -> u8 {
        power_source_tag(*self)
    }

    open spec fn spec_pack_data(&self) -> Option<Seq<u8>> {
        Some(Seq::empty())
    }

    open spec fn spec_unpack_data(tag: u8, data: Seq<u8>) -> Result<(PowerSource, nat), UnpackError> {
        match power_source_of(tag) {
            Some(p) => Ok((p, 0)),
            None => Err(UnpackError::InvalidEnumTag),
        }
    }

    fn get_tag(&self) -> (r: u8) {
        self.into_tag()
    }

    fn unpack_data(tag: u8, data: &[u8]) -> (r: Result<(Self, &[u8]), UnpackError>) {
        assert(data@.skip(0) =~= data@);
        match PowerSource::try_from_tag(tag) {
            Ok(p) => Ok((p, data)),
            Err(_) => Err(UnpackError::InvalidEnumTag),
        }
    }

    fn pack_data<T: PackTarget>(&self, target: T) -> (r: Result<T, PackError<T::Error>>) {
        ().pack(target)
    }
}

impl PackTagged for AssociationError {
    type Tag = u8;

    open spec fn spec_tag(&self) -> u8 {
        association_error_tag(*self)
    }

    open spec fn spec_pack_data(&self) -> Option<Seq<u8>> {
        Some(Seq::empty())
    }

    open spec fn spec_unpack_data(tag: u8, data: Seq<u8>) -> Result<(AssociationError, nat), UnpackError> {
        match association_error_of(tag) {
            Some(e) => Ok((e, 0)),
            None => Err(UnpackError::InvalidEnumTag),
        }
    }

    fn get_tag(&self) -> (r: u8) {
        self.into_tag()
    }

    fn unpack_data(tag: u8, data: &[u8]) -> (r: Result<(Self, &[u8]), UnpackError>) {
        assert(data@.skip(0) =~= data@);
        match AssociationError::try_from_tag(tag) {
            Ok(e) => Ok((e, data)),
            Err(_) => Err(UnpackError::InvalidEnumTag),
        }
    }

    fn pack_data<T: PackTarget>(&self, target: T) -> (r: Result<T, PackError<T::Error>>) {
        ().pack(target)
    }
}

/// The capability information field (7.5.2).
#[derive(Debug, Clone, Copy, PartialEq, Eq, Structural, Hash)]
pub struct CapabilityInformation {
    pub device_type: DeviceType,
    pub power_source: PowerSource,
    pub receiver_on_when_idle: bool,
    pub fast_association: bool,
    pub security_capable: bool,
    pub allocate_address: bool,
}

/// Bit `n` of `b`.
pub open spec fn bit(b: u8, n: u8) -> bool {
    (b >> n) & 1 != 0
}

/// The capability information in byte `b`; bits 0 and 5 are reserved.
pub open spec fn capability_information_of(b: u8) -> CapabilityInformation {
    CapabilityInformation {
        device_type: if bit(b, 1) {
            DeviceType::FFD
        } else {
            DeviceType::RFD
        },
        power_source: if bit(b, 2) {
            PowerSource::AC
        } else {
            PowerSource::Battery
        },
        receiver_on_when_idle: bit(b, 3),
        fast_association: bit(b, 4),
        security_capable: bit(b, 6),
        allocate_address: bit(b, 7),
    }
}

/// Unpacking a capability information field: one byte.
pub open spec fn capability_information_unpack(data: Seq<u8>) -> Result<(CapabilityInformation, nat), UnpackError> {
    if data.len() < 1 {
        Err(UnpackError::NotEnoughData)
    } else {
        Ok((capability_information_of(data[0]), 1))
    }
}

impl Pack for CapabilityInformation {
    /// Packing writes no bytes.
    open spec fn spec_pack(&self) -> Option<Seq<u8>> {
        Some(Seq::empty())
    }

    open spec fn spec_unpack(data: Seq<u8>) -> Result<(CapabilityInformation, nat), UnpackError> {
        capability_information_unpack(data)
    }

    fn unpack(data: &[u8]) -> (r: Result<(Self, &[u8]), UnpackError>) {
        let (capability_information, d1) = u8::unpack(data)?;
        let device_tag: u8 = (capability_information >> 1) & 1;
        assert(device_tag < 2) by (bit_vector)
            requires
                device_tag == (capability_information >> 1) & 1,
        ;
        let (device_type, d2) = DeviceType::unpack_data(device_tag, d1)?;
        let power_tag: u8 = (capability_information >> 2) & 1;
        assert(power_tag < 2) by (bit_vector)
            requires
                power_tag == (capability_information >> 2) & 1,
        ;
        let (power_source, d3) = PowerSource::unpack_data(power_tag, d2)?;
        assert(d1@.skip(0) =~= d1@);
        assert(d2@.skip(0) =~= d2@);
        assert(d3@ == data@.skip(1));
        let receiver_on_when_idle = (capability_information >> 3) & 1 != 0;
        let fast_association = (capability_information >> 4) & 1 != 0;
        let security_capable = (capability_information >> 6) & 1 != 0;
        let allocate_address = (capability_information >> 7) & 1 != 0;
        proof {
            let b = capability_information;
            assert(bit(b, 1) == (device_tag != 0)) by (bit_vector)
                requires
                    device_tag == (b >> 1) & 1,
            ;
            assert(bit(b, 2) == (power_tag != 0)) by (bit_vector)
                requires
                    power_tag == (b >> 2) & 1,
            ;
            assert(bit(b, 3) == ((b >> 3) & 1 != 0)) by (bit_vector);
            assert(bit(b, 4) == ((b >> 4) & 1 != 0)) by (bit_vector);
            assert(bit(b, 6) == ((b >> 6) & 1 != 0)) by (bit_vector);
            assert(bit(b, 7) == ((b >> 7) & 1 != 0)) by (bit_vector);
        }
        Ok(
            (
                CapabilityInformation {
                    device_type,
                    power_source,
                    receiver_on_when_idle,
                    fast_association,
                    security_capable,
                    allocate_address,
                },
                d3,
            ),
        )
    }

    fn pack<T: PackTarget>(&self, target: T) -> (r: Result<T, PackError<T::Error>>) {
        ().pack(target)
    }
}

/// The association response command (7.5.3).
#[derive(Debug, Clone, Copy, PartialEq, Eq, Hash)]
pub struct AssociationResponse {
    pub fast_association: bool,
    pub status: Result<ShortAddress, AssociationError>,
}

/// The status byte of an association response.
pub open spec fn association_status_byte(r: AssociationResponse) -> u8 {
    let code: u8 = match r.status {
        Ok(_) => 0,
        Err(e) => association_error_tag(e),
    };
    if r.fast_association {
        (code + 0x80) as u8
    } else {
        code
    }
}

/// The short address field of an association response: 0xFFFF on failure.
pub open spec fn association_address(r: AssociationResponse) -> u16 {
    match r.status {
        Ok(a) => a.0,
        Err(_) => 0xFFFF,
    }
}

/// The bytes of an association response: the short address field, then the
/// status byte.
pub open spec fn association_response_bytes(r: AssociationResponse) -> Seq<u8> {
    spec_u16_to_le_bytes(association_address(r)) + seq![association_status_byte(r)]
}

/// Unpacking an association response.
pub open spec fn association_response_unpack(data: Seq<u8>) -> Result<(AssociationResponse, nat), UnpackError> {
    if data.len() < 3 {
        Err(UnpackError::NotEnoughData)
    } else {
        let address = ShortAddress(spec_u16_from_le_bytes(data.take(2)));
        let status = data[2];
        let fast_association = status >= 0x80;
        let code = (status % 0x80) as u8;
        if code == 0 {
            Ok((AssociationResponse { fast_association, status: Ok(address) }, 3))
        } else {
            match association_error_of(code) {
                Some(e) => Ok((AssociationResponse { fast_association, status: Err(e) }, 3)),
                None => Err(UnpackError::InvalidEnumTag),
            }
        }
    }
}

impl Pack for AssociationResponse {
    open spec fn spec_pack(&self) -> Option<Seq<u8>> {
        Some(association_response_bytes(*self))
    }

    open spec fn spec_unpack(data: Seq<u8>) -> Result<(AssociationResponse, nat), UnpackError> {
        association_response_unpack(data)
    }

    fn unpack(data: &[u8]) -> (r: Result<(Self, &[u8]), UnpackError>) {
        if data.len() < 3 {
            return Err(UnpackError::NotEnoughData);
        }
        let (short_address, rest) = ShortAddress::unpack(data)?;
        let (status, rest) = u8::unpack(rest)?;
        proof {
            assert(data@.skip(2)[0] == data@[2]);
            assert(data@.skip(2).skip(1) =~= data@.skip(3));
        }
        let fast_association = status >= 0x80;
        let code = status % 0x80;
        assert(status == data@[2]);
        assert(short_address.0 == spec_u16_from_le_bytes(data@.take(2)));
        if code == 0 {
            Ok((AssociationResponse { fast_association, status: Ok(short_address) }, rest))
        } else {
            assert(rest@.skip(0) =~= rest@);
            match AssociationError::unpack_data(code, rest) {
                Ok((error, rest)) => Ok((AssociationResponse { fast_association, status: Err(error) }, rest)),
                Err(e) => Err(e),
            }
        }
    }

    fn pack<T: PackTarget>(&self, target: T) -> (r: Result<T, PackError<T::Error>>) {
        let (address, code): (u16, u8) = match &self.status {
            Ok(addr) => (addr.0, 0),
            Err(x) => (ShortAddress::invalid().0, x.get_tag()),
        };
        let status: u8 = if self.fast_association {
            code + 0x80
        } else {
            code
        };
        (address, status).pack(target)
    }
}

/// MAC commands (7.5.1).
#[derive(Debug, Clone, Copy, PartialEq, Eq, Hash)]
pub enum Command {
    AssociationRequest(CapabilityInformation),
    AssociationResponse(AssociationResponse),
    DataRequest(),
    BeaconRequest(),
}

/// The command identifier of a command.
pub open spec fn command_tag(c: Command) -> u8 {
    match c {
        Command::AssociationRequest(_) => 0x01,
        Command::AssociationResponse(_) => 0x02,
        Command::DataRequest() => 0x04,
        Command::BeaconRequest() => 0x07,
    }
}

/// The bytes that follow the identifier of a command.
pub open spec fn command_data_bytes(c: Command) -> Seq<u8> {
    match c {
        Command::AssociationRequest(_) => Seq::empty(),
        Command::AssociationResponse(a) => association_response_bytes(a),
        Command::DataRequest() => Seq::empty(),
        Command::BeaconRequest() => Seq::empty(),
    }
}

/// Unpacking the command with identifier `tag` from the front of `data`.
pub open spec fn command_unpack_data(tag: u8, data: Seq<u8>) -> Result<(Command, nat), UnpackError> {
    if tag == 0x01 {
        match capability_information_unpack(data) {
            Ok((c, n)) => Ok((Command::AssociationRequest(c), n)),
            Err(e) => Err(e),
        }
    } else if tag == 0x02 {
        match association_response_unpack(data) {
            Ok((a, n)) => Ok((Command::AssociationResponse(a), n)),
            Err(e) => Err(e),
        }
    } else if tag == 0x04 {
        Ok((Command::DataRequest(), 0))
    } else if tag == 0x07 {
        Ok((Command::BeaconRequest(), 0))
    } else {
        Err(UnpackError::InvalidEnumTag)
    }
}

/// The bytes of a command: its identifier, then its data.
pub open spec fn command_bytes(c: Command) -> Seq<u8> {
    seq![command_tag(c)] + command_data_bytes(c)
}

/// Unpacking a command from the front of `data`.
pub open spec fn command_unpack(data: Seq<u8>) -> Result<(Command, nat), UnpackError> {
    if data.len() < 1 {
        Err(UnpackError::NotEnoughData)
    } else {
        match command_unpack_data(data[0], data.skip(1)) {
            Ok((c, n)) => Ok((c, n + 1)),
            Err(e) => Err(e),
        }
    }
}

impl PackTagged for Command {
    type Tag = u8;

    open spec fn spec_tag(&self) -> u8 {
        command_tag(*self)
    }

    open spec fn spec_pack_data(&self) -> Option<Seq<u8>> {
        Some(command_data_bytes(*self))
    }

    open spec fn spec_unpack_data(tag: u8, data: Seq<u8>) -> Result<(Command, nat), UnpackError> {
        command_unpack_data(tag, data)
    }

    fn get_tag(&self) -> (r: u8) {
        match self {
            Command::AssociationRequest(_) => 0x01,
            Command::AssociationResponse(_) => 0x02,
            Command::DataRequest() => 0x04,
            Command::BeaconRequest() => 0x07,
        }
    }

    fn unpack_data(tag: u8, data: &[u8]) -> (r: Result<(Self, &[u8]), UnpackError>) {
        assert(data@.skip(0) =~= data@);
        if tag == 0x01 {
            let (c, rest) = CapabilityInformation::unpack(data)?;
            Ok((Command::AssociationRequest(c), rest))
        } else if tag == 0x02 {
            let (a, rest) = AssociationResponse::unpack(data)?;
            Ok((Command::AssociationResponse(a), rest))
        } else if tag == 0x04 {
            Ok((Command::DataRequest(), data))
        } else if tag == 0x07 {
            Ok((Command::BeaconRequest(), data))
        } else {
            Err(UnpackError::InvalidEnumTag)
        }
    }

    fn pack_data<T: PackTarget>(&self, target: T) -> (r: Result<T, PackError<T::Error>>) {
        match self {
            Command::AssociationRequest(c) => c.pack(target),
            Command::AssociationResponse(a) => a.pack(target),
            Command::DataRequest() => ().pack(target),
            Command::BeaconRequest() => ().pack(target),
        }
    }
}

impl Pack for Command {
    open spec fn spec_pack(&self) -> Option<Seq<u8>> {
        Some(command_bytes(*self))
    }

    open spec fn spec_unpack(data: Seq<u8>) -> Result<(Command, nat), UnpackError> {
        command_unpack(data)
    }

    fn unpack(data: &[u8]) -> (r: Result<(Self, &[u8]), UnpackError>) {
        let (tag, rest) = u8::unpack(data)?;
        let (command, rest2) = Command::unpack_data(tag, rest)?;
        proof {
            let n = command_unpack_data(data@[0], data@.skip(1))->Ok_0.1;
            assert(data@.skip(1).skip(n as int) =~= data@.skip(n as int + 1));
        }
        Ok((command, rest2))
    }

    fn pack<T: PackTarget>(&self, target: T) -> (r: Result<T, PackError<T::Error>>) {
        let tag = self.get_tag();
        let t = match tag.pack(target) {
            Ok(t) => t,
            Err(e) => {
                return Err(e);
            },
        };
        let r = self.pack_data(t);
        proof {
            let d = command_data_bytes(*self);
            assert(target.written() + seq![tag] + d =~= target.written() + (seq![tag] + d));
        }
        r
    }
}

/// An association response unpacks back to itself, whatever follows it.
pub proof fn lemma_association_response_roundtrip(r: AssociationResponse, rest: Seq<u8>)
    ensures
        association_response_bytes(r).len() == 3,
        association_response_unpack(association_response_bytes(r) + rest) == Ok::<(AssociationResponse, nat), UnpackError>((r, 3)),
{
    lemma_auto_spec_u16_to_from_le_bytes();
    let b = association_response_bytes(r);
    let data = b + rest;
    assert(data.take(2) =~= spec_u16_to_le_bytes(association_address(r)));
    assert(data[2] == association_status_byte(r));
}

/// A command other than an association request (whose capability
/// information packs to nothing) unpacks back to itself, whatever follows it.
pub proof fn lemma_command_roundtrip(c: Command, rest: Seq<u8>)
    requires
        !(c is AssociationRequest),
    ensures
        command_unpack(command_bytes(c) + rest) == Ok::<(Command, nat), UnpackError>((c, command_bytes(c).len())),
{
    let data = command_bytes(c) + rest;
    assert(data[0] == command_tag(c));
    assert(data.skip(1) =~= command_data_bytes(c) + rest);
    match c {
        Command::AssociationResponse(a) => {
            lemma_association_response_roundtrip(a, rest);
        },
        _ => {},
    }
}

impl DeepView for DeviceType {
    type V = DeviceType;

    open spec fn deep_view(&self) -> DeviceType {
        *self
    }
}

impl DeepView for PowerSource {
    type V = PowerSource;

    open spec fn deep_view(&self) -> PowerSource {
        *self
    }
}

impl DeepView for AssociationError {
    type V = AssociationError;

    open spec fn deep_view(&self) -> AssociationError {
        *self
    }
}

impl DeepView for CapabilityInformation {
    type V = CapabilityInformation;

    open spec fn deep_view(&self) -> CapabilityInformation {
        *self
    }
}

impl DeepView for AssociationResponse {
    type V = AssociationResponse;

    open spec fn deep_view(&self) -> AssociationResponse {
        *self
    }
}

impl DeepView for Command {
    type V = Command;

    open spec fn deep_view(&self) -> Command {
        *self
    }
}

} // verus!
