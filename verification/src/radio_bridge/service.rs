//! The radio parameters of the bridge, the requests that read and write them,
//! and the reading of the bridge's replies.
use crate::parse_serialize::{le16, le64, push_le16, push_le64};
use crate::radio_bridge::raw_service;
use crate::radio_bridge::serial_protocol::{be16, read_be16};
use vstd::prelude::*;

verus! {

/// The parameters of the radio.
#[derive(Debug, Clone, Copy, PartialEq, Eq, Structural)]
pub enum RadioParam {
    PowerMode,
    Channel,
    PanId,
    ShortAddress,
    RxMode,
    TxMode,
    TxPower,
    CcaThreshold,
    Rssi,
    LastRssi,
    LastLinkQuality,
    LongAddress,
    LastPacketTimestamp,
    ChannelMin,
    ChannelMax,
    TxPowerMin,
    TxPowerMax,
}

/// The number of a radio parameter.
pub open spec fn radio_param_number(p: RadioParam) -> u16 {
    match p {
        RadioParam::PowerMode => 0,
        RadioParam::Channel => 1,
        RadioParam::PanId => 2,
        RadioParam::ShortAddress => 3,
        RadioParam::RxMode => 4,
        RadioParam::TxMode => 5,
        RadioParam::TxPower => 6,
        RadioParam::CcaThreshold => 7,
        RadioParam::Rssi => 8,
        RadioParam::LastRssi => 9,
        RadioParam::LastLinkQuality => 10,
        RadioParam::LongAddress => 11,
        RadioParam::LastPacketTimestamp => 12,
        RadioParam::ChannelMin => 13,
        RadioParam::ChannelMax => 14,
        RadioParam::TxPowerMin => 15,
        RadioParam::TxPowerMax => 16,
    }
}

/// The parameters in the order in which they are declared.
pub open spec fn radio_params() -> Seq<RadioParam> {
    seq![
        RadioParam::PowerMode,
        RadioParam::Channel,
        RadioParam::PanId,
        RadioParam::ShortAddress,
        RadioParam::RxMode,
        RadioParam::TxMode,
        RadioParam::TxPower,
        RadioParam::CcaThreshold,
        RadioParam::Rssi,
        RadioParam::LastRssi,
        RadioParam::LastLinkQuality,
        RadioParam::LongAddress,
        RadioParam::LastPacketTimestamp,
        RadioParam::ChannelMin,
        RadioParam::ChannelMax,
        RadioParam::TxPowerMin,
        RadioParam::TxPowerMax,
    ]
}

/// The bridge numbers the parameters from 0 in the order in which they are
/// declared (the power mode is 0, the channel 1, the PAN id 2, ...), so
/// distinct parameters have distinct numbers.
pub proof fn lemma_param_numbers(p: RadioParam, q: RadioParam)
    ensures
        radio_params().len() == 17,
        forall|i: int| 0 <= i < radio_params().len() ==> radio_param_number(#[trigger] radio_params()[i]) == i,
        radio_params().contains(p),
        p != q ==> radio_param_number(p) != radio_param_number(q),
{
    let s = radio_params();
    assert(s[0] == RadioParam::PowerMode);
    assert(s[1] == RadioParam::Channel);
    assert(s[2] == RadioParam::PanId);
    assert(s[3] == RadioParam::ShortAddress);
    assert(s[4] == RadioParam::RxMode);
    assert(s[5] == RadioParam::TxMode);
    assert(s[6] == RadioParam::TxPower);
    assert(s[7] == RadioParam::CcaThreshold);
    assert(s[8] == RadioParam::Rssi);
    assert(s[9] == RadioParam::LastRssi);
    assert(s[10] == RadioParam::LastLinkQuality);
    assert(s[11] == RadioParam::LongAddress);
    assert(s[12] == RadioParam::LastPacketTimestamp);
    assert(s[13] == RadioParam::ChannelMin);
    assert(s[14] == RadioParam::ChannelMax);
    assert(s[15] == RadioParam::TxPowerMin);
    assert(s[16] == RadioParam::TxPowerMax);
    let ip: int = radio_param_number(p) as int;
    assert(s[ip] == p);
    let iq: int = radio_param_number(q) as int;
    assert(s[iq] == q);
}

impl RadioParam {
    /// The number the bridge knows the parameter by.
    pub fn number(&self) -> (r: u16)
        ensures
            r == radio_param_number(*self),
    {
        match self {
            RadioParam::PowerMode => 0,
            RadioParam::Channel => 1,
            RadioParam::PanId => 2,
            RadioParam::ShortAddress => 3,
            RadioParam::RxMode => 4,
            RadioParam::TxMode => 5,
            RadioParam::TxPower => 6,
            RadioParam::CcaThreshold => 7,
            RadioParam::Rssi => 8,
            RadioParam::LastRssi => 9,
            RadioParam::LastLinkQuality => 10,
            RadioParam::LongAddress => 11,
            RadioParam::LastPacketTimestamp => 12,
            RadioParam::ChannelMin => 13,
            RadioParam::ChannelMax => 14,
            RadioParam::TxPowerMin => 15,
            RadioParam::TxPowerMax => 16,
        }
    }
}

/// Why a radio request failed.
#[derive(Debug)]
pub enum Error {
    RawError(raw_service::Error),
    UnexpectedResponseSize,
    ErrorCode(usize),
    Unsupported,
}

impl From<raw_service::Error> for Error {
    fn from(err: raw_service::Error) -> (r: Self) {
        Error::RawError(err)
    }
}

impl vstd::std_specs::convert::FromSpecImpl<raw_service::Error> for Error {
    open spec fn obeys_from_spec() -> bool {
        true
    }

    open spec fn from_spec(err: raw_service::Error) -> Error {
        Error::RawError(err)
    }
}

/// Values that travel as a 16 bit radio value.
pub trait FromToRadioValue: Sized {
    /// The radio value of `self`.
    fn to_radio_value(&self) -> Result<u16, Error>;

    /// The value a radio value stands for.
    fn from_radio_value(value: u16) -> Result<Self, Error>;
}

impl FromToRadioValue for u16 {
    fn to_radio_value(&self) -> (r: Result<u16, Error>)
        ensures
            r matches Ok(v) && v == *self,
    {
        Ok(*self)
    }

    fn from_radio_value(value: u16) -> (r: Result<Self, Error>)
        ensures
            r matches Ok(v) && v == value,
    {
        Ok(value)
    }
}

impl FromToRadioValue for bool {
    fn to_radio_value(&self) -> (r: Result<u16, Error>)
        ensures
            r matches Ok(v) && v == if *self {
                1u16
            } else {
                0u16
            },
    {
        if *self {
            Ok(1)
        } else {
            Ok(0)
        }
    }

    fn from_radio_value(value: u16) -> (r: Result<Self, Error>)
        ensures
            value == 0 ==> (r matches Ok(b) && !b),
            value == 1 ==> (r matches Ok(b) && b),
            value > 1 ==> r matches Err(Error::Unsupported),
    {
        if value == 0 {
            Ok(false)
        } else if value == 1 {
            Ok(true)
        } else {
            Err(Error::Unsupported)
        }
    }
}

/// The receive mode of the radio.
#[derive(Debug, Clone, Copy, PartialEq, Eq, Structural)]
pub struct RadioRxMode {
    pub address_filter: bool,
    pub autoack: bool,
    pub poll_mode: bool,
}

/// `1` for `true`, `0` for `false`.
pub open spec fn bit_value(b: bool) -> u16 {
    if b {
        1
    } else {
        0
    }
}

/// The radio value of a receive mode: address filtering in bit 0, automatic
/// acknowledgement in bit 1, poll mode in bit 2.
pub open spec fn rx_mode_value(m: RadioRxMode) -> u16 {
    bit_value(m.address_filter) | (bit_value(m.autoack) << 1u16) | (bit_value(m.poll_mode) << 2u16)
}

/// The receive mode of a radio value below 8.
pub open spec fn rx_mode_of(v: u16) -> RadioRxMode {
    RadioRxMode { address_filter: v & 1 != 0, autoack: (v >> 1u16) & 1 != 0, poll_mode: (v >> 2u16) & 1 != 0 }
}

fn bit_of(b: bool) -> (r: u16)
    ensures
        r == bit_value(b),
{
    if b {
        1
    } else {
        0
    }
}

impl FromToRadioValue for RadioRxMode {
    fn to_radio_value(&self) -> (r: Result<u16, Error>)
        ensures
            r matches Ok(v) && v == rx_mode_value(*self),
    {
        Ok(bit_of(self.address_filter) | (bit_of(self.autoack) << 1u16) | (bit_of(self.poll_mode) << 2u16))
    }

    fn from_radio_value(param: u16) -> (r: Result<RadioRxMode, Error>)
        ensures
            param >> 3u16 != 0 ==> r matches Err(Error::Unsupported),
            param >> 3u16 == 0 ==> (r matches Ok(m) && m == rx_mode_of(param)),
    {
        if param >> 3u16 != 0 {
            Err(Error::Unsupported)
        } else {
            Ok(
                RadioRxMode {
                    address_filter: (param & 1) != 0,
                    autoack: ((param >> 1u16) & 1) != 0,
                    poll_mode: ((param >> 2u16) & 1) != 0,
                },
            )
        }
    }
}

proof fn lemma_rx_bits(a: u16, b: u16, c: u16)
    by (bit_vector)
    requires
        a < 2,
        b < 2,
        c < 2,
    ensures
        (a | (b << 1u16) | (c << 2u16)) >> 3u16 == 0,
        (a | (b << 1u16) | (c << 2u16)) & 1 == a,
        ((a | (b << 1u16) | (c << 2u16)) >> 1u16) & 1 == b,
        ((a | (b << 1u16) | (c << 2u16)) >> 2u16) & 1 == c,
{
}

proof fn lemma_rx_value_bits(v: u16)
    by (bit_vector)
    requires
        v >> 3u16 == 0,
    ensures
        v == ((if v & 1 != 0 { 1u16 } else { 0u16 }) | ((if (v >> 1u16) & 1 != 0 { 1u16 } else { 0u16 }) << 1u16) | ((
        if (v >> 2u16) & 1 != 0 { 1u16 } else { 0u16 }) << 2u16)),
{
}

/// A receive mode goes to a radio value below 8 and comes back unchanged.
pub proof fn lemma_rx_mode_roundtrip(m: RadioRxMode)
    ensures
        rx_mode_value(m) >> 3u16 == 0,
        rx_mode_of(rx_mode_value(m)) == m,
{
    lemma_rx_bits(bit_value(m.address_filter), bit_value(m.autoack), bit_value(m.poll_mode));
}

/// Every radio value below 8 is the value of the receive mode it decodes to.
pub proof fn lemma_rx_value_roundtrip(v: u16)
    requires
        v >> 3u16 == 0,
    ensures
        rx_mode_value(rx_mode_of(v)) == v,
{
    lemma_rx_value_bits(v);
}

/*=== Requests ===*/

/// The data of a request to read an object parameter of `expected_size`
/// bytes: the parameter number and the size (cut to 16 bits), big endian.
pub fn get_object_request(radio_param: RadioParam, expected_size: usize) -> (r: Vec<u8>)
    ensures
        r@ == be16(radio_param_number(radio_param)) + be16(expected_size as u16),
{
    let mut data: Vec<u8> = Vec::new();
    put_be16(&mut data, radio_param.number());
    put_be16(&mut data, expected_size as u16);
    assert(data@ =~= be16(radio_param_number(radio_param)) + be16(expected_size as u16));
    data
}

/// The data of a request to read a value parameter: its number, big endian.
pub fn get_value_request(radio_param: RadioParam) -> (r: Vec<u8>)
    ensures
        r@ == be16(radio_param_number(radio_param)),
{
    let mut data: Vec<u8> = Vec::new();
    put_be16(&mut data, radio_param.number());
    assert(data@ =~= be16(radio_param_number(radio_param)));
    data
}

/// The data of a request to write a value parameter: its number and the
/// value, big endian.
pub fn set_value_request(radio_param: RadioParam, value: u16) -> (r: Vec<u8>)
    ensures
        r@ == be16(radio_param_number(radio_param)) + be16(value),
{
    let mut data: Vec<u8> = Vec::new();
    put_be16(&mut data, radio_param.number());
    put_be16(&mut data, value);
    assert(data@ =~= be16(radio_param_number(radio_param)) + be16(value));
    data
}

/// The data of a request to set entry `index` of the extended address
/// pending table: the index with bit 7 set, then the address (little endian)
/// or nothing to clear the entry.
pub fn set_pending_data_ext_request(index: usize, address: Option<u64>) -> (r: Vec<u8>)
    ensures
        r@ == seq![0x80u8 | (index as u8)] + match address {
            Some(a) => le64(a),
            None => Seq::empty(),
        },
{
    let mut data: Vec<u8> = Vec::new();
    data.push(0x80u8 | (index as u8));
    match address {
        Some(a) => push_le64(&mut data, a),
        None => {},
    }
    assert(data@ =~= seq![0x80u8 | (index as u8)] + match address {
        Some(a) => le64(a),
        None => Seq::empty(),
    });
    data
}

/// The data of a request to set entry `index` of the short address pending
/// table: the index with bit 7 clear, then the PAN identifier and the address
/// (little endian) or nothing to clear the entry.
pub fn set_pending_data_short_request(index: usize, address: Option<(u16, u16)>) -> (r: Vec<u8>)
    ensures
        r@ == seq![0x7Fu8 & (index as u8)] + match address {
            Some((panid, a)) => le16(panid) + le16(a),
            None => Seq::empty(),
        },
{
    let mut data: Vec<u8> = Vec::new();
    data.push(0x7Fu8 & (index as u8));
    match address {
        Some((panid, a)) => {
            push_le16(&mut data, panid);
            push_le16(&mut data, a);
        },
        None => {},
    }
    assert(data@ =~= seq![0x7Fu8 & (index as u8)] + match address {
        Some((panid, a)) => le16(panid) + le16(a),
        None => Seq::empty(),
    });
    data
}

fn put_be16(dst: &mut Vec<u8>, x: u16)
    ensures
        final(dst)@ == old(dst)@ + be16(x),
{
    dst.push((x >> 8u16) as u8);
    dst.push((x & 0xFF) as u8);
    assert(final(dst)@ =~= old(dst)@ + be16(x));
}

/*=== Replies ===*/

/// The status at the front of a reply, when the reply came.
pub open spec fn reply_status(data: Seq<u8>) -> Option<u16> {
    if data.len() < 2 {
        None
    } else {
        Some(read_be16(data))
    }
}

/// Reads a reply that carries only a status: `success` is the status of
/// success (0 for most commands, 1 for switching the radio on).
pub fn parse_status_response(response: Result<Vec<u8>, raw_service::Error>, success: u16) -> (r: Result<(), Error>)
    ensures
        match response {
            Err(e) => r matches Err(Error::RawError(f)) && f == e,
            Ok(data) => match reply_status(data@) {
                None => r matches Err(Error::UnexpectedResponseSize),
                Some(s) => if s == success {
                    r is Ok
                } else {
                    r matches Err(Error::ErrorCode(c)) && c == s
                },
            },
        },
{
    match response {
        Err(e) => Err(Error::RawError(e)),
        Ok(data) => {
            if data.len() < 2 {
                Err(Error::UnexpectedResponseSize)
            } else {
                let retval = ((data[0] as u16) << 8u16) | (data[1] as u16);
                if retval == success {
                    Ok(())
                } else {
                    Err(Error::ErrorCode(retval as usize))
                }
            }
        },
    }
}

/// Reads the reply to a value read: a zero status, then the value, big
/// endian.
pub fn parse_get_value_response(response: Result<Vec<u8>, raw_service::Error>) -> (r: Result<u16, Error>)
    ensures
        match response {
            Err(e) => r matches Err(Error::RawError(f)) && f == e,
            Ok(data) => match reply_status(data@) {
                None => r matches Err(Error::UnexpectedResponseSize),
                Some(s) => if s != 0 {
                    r matches Err(Error::ErrorCode(c)) && c == s
                } else if data@.len() < 4 {
                    r matches Err(Error::UnexpectedResponseSize)
                } else {
                    r matches Ok(v) && v == read_be16(data@.skip(2))
                },
            },
        },
{
    match response {
        Err(e) => Err(Error::RawError(e)),
        Ok(data) => {
            if data.len() < 2 {
                Err(Error::UnexpectedResponseSize)
            } else {
                let retval = ((data[0] as u16) << 8u16) | (data[1] as u16);
                if retval != 0 {
                    Err(Error::ErrorCode(retval as usize))
                } else if data.len() < 4 {
                    Err(Error::UnexpectedResponseSize)
                } else {
                    let v = ((data[2] as u16) << 8u16) | (data[3] as u16);
                    assert(data@.skip(2)[0] == data@[2] && data@.skip(2)[1] == data@[3]);
                    Ok(v)
                }
            }
        },
    }
}

/// Reads the reply to an object read: a zero status, then at least
/// `expected_size` bytes of object, which are returned.
pub fn parse_get_object_response(response: Result<Vec<u8>, raw_service::Error>, expected_size: usize) -> (r: Result<
    Vec<u8>,
    Error,
>)
    ensures
        match response {
            Err(e) => r matches Err(Error::RawError(f)) && f == e,
            Ok(data) => match reply_status(data@) {
                None => r matches Err(Error::UnexpectedResponseSize),
                Some(s) => if s != 0 {
                    r matches Err(Error::ErrorCode(c)) && c == s
                } else if data@.len() - 2 < expected_size {
                    r matches Err(Error::UnexpectedResponseSize)
                } else {
                    r matches Ok(v) && v@ == data@.skip(2)
                },
            },
        },
{
    match response {
        Err(e) => Err(Error::RawError(e)),
        Ok(data) => {
            if data.len() < 2 {
                Err(Error::UnexpectedResponseSize)
            } else {
                let retval = ((data[0] as u16) << 8u16) | (data[1] as u16);
                if retval != 0 {
                    Err(Error::ErrorCode(retval as usize))
                } else if data.len() - 2 < expected_size {
                    Err(Error::UnexpectedResponseSize)
                } else {
                    let ghost whole = data@;
                    let mut head = data;
                    let object = head.split_off(2);
                    assert(object@ =~= whole.skip(2));
                    Ok(object)
                }
            }
        },
    }
}

/// The big endian `u64` at the front of an object (at least eight bytes).
pub open spec fn read_be64(data: Seq<u8>) -> u64 {
    (((data[0] as u64) << 56u64) | ((data[1] as u64) << 48u64) | ((data[2] as u64) << 40u64) | ((data[3] as u64)
        << 32u64) | ((data[4] as u64) << 24u64) | ((data[5] as u64) << 16u64) | ((data[6] as u64) << 8u64) | (
    data[7] as u64)) as u64
}

/// The long (extended) address in the object read for it.
pub fn long_address_of(object: &[u8]) -> (r: u64)
    requires
        object@.len() >= 8,
    ensures
        r == read_be64(object@),
{
    ((object[0] as u64) << 56u64) | ((object[1] as u64) << 48u64) | ((object[2] as u64) << 40u64) | ((
    object[3] as u64) << 32u64) | ((object[4] as u64) << 24u64) | ((object[5] as u64) << 16u64) | ((
    object[6] as u64) << 8u64) | (object[7] as u64)
}

} // verus!
