pub mod mac;
pub mod mac_frame;
pub mod pib;
pub mod services;

use crate::pack::{append_bytes, Pack, PackError, PackTarget, UnpackError};
use vstd::bytes::*;
use vstd::prelude::*;

verus! {

/// A 16 bit IEEE 802.15.4 short address.
#[derive(Clone, Copy, PartialEq, Eq, Structural, Hash, Debug)]
pub struct ShortAddress(pub u16);

/// A 64 bit IEEE 802.15.4 extended (EUI-64) address.
#[derive(Clone, Copy, PartialEq, Eq, Structural, Hash, Debug)]
pub struct ExtendedAddress(pub u64);

/// A 16 bit PAN identifier.
#[derive(Clone, Copy, PartialEq, Eq, Structural, Hash, Debug)]
pub struct PANID(pub u16);

impl View for ShortAddress {
    type V = ShortAddress;

    open spec fn view(&self) -> ShortAddress {
        *self
    }
}

impl DeepView for ShortAddress {
    type V = ShortAddress;

    open spec fn deep_view(&self) -> ShortAddress {
        *self
    }
}

impl View for ExtendedAddress {
    type V = ExtendedAddress;

    open spec fn view(&self) -> ExtendedAddress {
        *self
    }
}

impl DeepView for ExtendedAddress {
    type V = ExtendedAddress;

    open spec fn deep_view(&self) -> ExtendedAddress {
        *self
    }
}

impl View for PANID {
    type V = PANID;

    open spec fn view(&self) -> PANID {
        *self
    }
}

impl DeepView for PANID {
    type V = PANID;

    open spec fn deep_view(&self) -> PANID {
        *self
    }
}

impl From<u16> for ShortAddress {
    fn from(x: u16) -> (r: Self) {
        Self(x)
    }
}

impl vstd::std_specs::convert::FromSpecImpl<u16> for ShortAddress {
    open spec fn obeys_from_spec() -> bool {
        true
    }

    open spec fn from_spec(x: u16) -> ShortAddress {
        ShortAddress(x)
    }
}

impl From<ShortAddress> for u16 {
    fn from(x: ShortAddress) -> (r: u16) {
        x.0
    }
}

impl vstd::std_specs::convert::FromSpecImpl<ShortAddress> for u16 {
    open spec fn obeys_from_spec() -> bool {
        true
    }

    open spec fn from_spec(x: ShortAddress) -> u16 {
        x.0
    }
}

impl From<u64> for ExtendedAddress {
    fn from(x: u64) -> (r: Self) {
        Self(x)
    }
}

impl vstd::std_specs::convert::FromSpecImpl<u64> for ExtendedAddress {
    open spec fn obeys_from_spec() -> bool {
        true
    }

    open spec fn from_spec(x: u64) -> ExtendedAddress {
        ExtendedAddress(x)
    }
}

impl From<ExtendedAddress> for u64 {
    fn from(x: ExtendedAddress) -> (r: u64) {
        x.0
    }
}

impl vstd::std_specs::convert::FromSpecImpl<ExtendedAddress> for u64 {
    open spec fn obeys_from_spec() -> bool {
        true
    }

    open spec fn from_spec(x: ExtendedAddress) -> u64 {
        x.0
    }
}

impl From<u16> for PANID {
    fn from(x: u16) -> (r: Self) {
        Self(x)
    }
}

impl vstd::std_specs::convert::FromSpecImpl<u16> for PANID {
    open spec fn obeys_from_spec() -> bool {
        true
    }

    open spec fn from_spec(x: u16) -> PANID {
        PANID(x)
    }
}

impl From<PANID> for u16 {
    fn from(x: PANID) -> (r: u16) {
        x.0
    }
}

impl vstd::std_specs::convert::FromSpecImpl<PANID> for u16 {
    open spec fn obeys_from_spec() -> bool {
        true
    }

    open spec fn from_spec(x: PANID) -> u16 {
        x.0
    }
}

impl ShortAddress {
    /// The broadcast short address 0xFFFF.
    pub fn broadcast() -> (r: Self)
        ensures
            r.0 == 0xFFFF,
    {
        ShortAddress(0xFFFF)
    }
}

impl ShortAddress {
    /// The address a device is given when it has not been allocated one (0xFFFE).
    pub fn none_assigned() -> (r: Self)
        ensures
            r.0 == 0xFFFE,
    {
        ShortAddress(0xFFFE)
    }

    /// The address sent along with a refused association (0xFFFF).
    pub fn invalid() -> (r: Self)
        ensures
            r.0 == 0xFFFF,
    {
        ShortAddress(0xFFFF)
    }
}

impl Pack for ShortAddress {
    open spec fn spec_pack(&self) -> Option<Seq<u8>> {
        self.0.spec_pack()
    }

    open spec fn spec_unpack(data: Seq<u8>) -> Result<(ShortAddress, nat), UnpackError> {
        match u16::spec_unpack(data) {
            Ok((x, n)) => Ok((ShortAddress(x), n)),
            Err(e) => Err(e),
        }
    }

    fn unpack(data: &[u8]) -> (r: Result<(Self, &[u8]), UnpackError>) {
        let (x, rest) = u16::unpack(data)?;
        Ok((ShortAddress(x), rest))
    }

    fn pack<T: PackTarget>(&self, target: T) -> (r: Result<T, PackError<T::Error>>) {
        self.0.pack(target)
    }
}

impl Pack for ExtendedAddress {
    open spec fn spec_pack(&self) -> Option<Seq<u8>> {
        self.0.spec_pack()
    }

    open spec fn spec_unpack(data: Seq<u8>) -> Result<(ExtendedAddress, nat), UnpackError> {
        match u64::spec_unpack(data) {
            Ok((x, n)) => Ok((ExtendedAddress(x), n)),
            Err(e) => Err(e),
        }
    }

    fn unpack(data: &[u8]) -> (r: Result<(Self, &[u8]), UnpackError>) {
        let (x, rest) = u64::unpack(data)?;
        Ok((ExtendedAddress(x), rest))
    }

    fn pack<T: PackTarget>(&self, target: T) -> (r: Result<T, PackError<T::Error>>) {
        self.0.pack(target)
    }
}

impl Pack for PANID {
    open spec fn spec_pack(&self) -> Option<Seq<u8>> {
        self.0.spec_pack()
    }

    open spec fn spec_unpack(data: Seq<u8>) -> Result<(PANID, nat), UnpackError> {
        match u16::spec_unpack(data) {
            Ok((x, n)) => Ok((PANID(x), n)),
            Err(e) => Err(e),
        }
    }

    fn unpack(data: &[u8]) -> (r: Result<(Self, &[u8]), UnpackError>) {
        let (x, rest) = u16::unpack(data)?;
        Ok((PANID(x), rest))
    }

    fn pack<T: PackTarget>(&self, target: T) -> (r: Result<T, PackError<T::Error>>) {
        self.0.pack(target)
    }
}

impl PANID {
    /// The broadcast PAN identifier 0xFFFF.
    pub fn broadcast() -> (r: Self)
        ensures
            r.0 == 0xFFFF,
    {
        PANID(0xFFFF)
    }
}

} // verus!
