//! Requests to the radio and the reading of its replies.
pub mod link;
pub mod raw;

use crate::radio::raw::{raw_param_number, RawRadioCommand, RawRadioParam};
use crate::unique_key::UniqueKey;
use vstd::bytes::*;
use vstd::prelude::*;

verus! {

/// The parameters of the radio.
pub type RadioParam = RawRadioParam;

/// The width of a parameter value.
#[derive(Debug, Clone, Copy, PartialEq, Eq, Structural)]
pub enum RadioParamType {
    U16,
    U32,
    U64,
}

/// A parameter value.
#[derive(Debug, Clone, Copy, PartialEq, Eq, Structural)]
pub enum RadioParamValue {
    U16(u16),
    U32(u32),
    U64(u64),
}

/// Why a radio request failed.
#[derive(Debug, Clone, PartialEq, Eq)]
pub enum RadioError {
    /// The radio refused the request, with this data.
    RawError(Vec<u8>),
    /// The radio answered with a non-zero status, and this data.
    RetvalError(u16, Vec<u8>),
    UnexpectedResponse,
    UnexpectedResponseSize,
}

/// An error, with its data as a sequence.
pub enum RadioErrorView {
    RawError(Seq<u8>),
    RetvalError(u16, Seq<u8>),
    UnexpectedResponse,
    UnexpectedResponseSize,
}

impl View for RadioError {
    type V = RadioErrorView;

    open spec fn view(&self) -> RadioErrorView {
        match self {
            RadioError::RawError(d) => RadioErrorView::RawError(d@),
            RadioError::RetvalError(c, d) => RadioErrorView::RetvalError(*c, d@),
            RadioError::UnexpectedResponse => RadioErrorView::UnexpectedResponse,
            RadioError::UnexpectedResponseSize => RadioErrorView::UnexpectedResponseSize,
        }
    }
}

/// A packet received by the radio.
#[derive(Debug, Clone, PartialEq, Eq)]
pub struct RadioPacket {
    pub data: Vec<u8>,
}

/// The requests the radio service takes; each carries the key its response
/// comes back with.
#[derive(Debug)]
pub enum RadioRequest {
    SetParam(UniqueKey, RawRadioParam, RadioParamValue),
    GetParam(UniqueKey, RawRadioParam, RadioParamType),
    InitPendingDataTable(UniqueKey),
    SetPower(UniqueKey, bool),
    SendPacket(UniqueKey, Vec<u8>),
}

/// The responses of the radio service.
#[derive(Debug)]
pub enum RadioResponse {
    SetParam(UniqueKey, RadioParam, Result<RadioParamValue, RadioError>),
    GetParam(UniqueKey, RadioParam, Result<RadioParamValue, RadioError>),
    InitPendingDataTable(UniqueKey, Result<(), RadioError>),
    SetPower(UniqueKey, bool, Result<(), RadioError>),
    SendPacket(UniqueKey, Result<(), RadioError>),
    OnPacket(Vec<u8>),
}

/// What the response to a request is made from: the request without its
/// data.
#[derive(Debug, Clone, Copy, PartialEq, Eq)]
pub enum RadioResponseParser {
    SetParam(UniqueKey, RawRadioParam, RadioParamValue),
    GetParam(UniqueKey, RawRadioParam, RadioParamType),
    InitPendingDataTable(UniqueKey),
    SetPower(UniqueKey, bool),
    SendPacket(UniqueKey),
}

/// The big endian bytes of a parameter value.
pub open spec fn value_bytes(v: RadioParamValue) -> Seq<u8> {
    match v {
        RadioParamValue::U16(x) => spec_u16_to_be(x),
        RadioParamValue::U32(x) => spec_u32_to_be(x),
        RadioParamValue::U64(x) => spec_u64_to_be(x),
    }
}

/// The big endian bytes of a `u16`.
pub open spec fn spec_u16_to_be(x: u16) -> Seq<u8> {
    spec_u16_to_le_bytes(x).reverse()
}

/// The big endian bytes of a `u32`.
pub open spec fn spec_u32_to_be(x: u32) -> Seq<u8> {
    spec_u32_to_le_bytes(x).reverse()
}

/// The big endian bytes of a `u64`.
pub open spec fn spec_u64_to_be(x: u64) -> Seq<u8> {
    spec_u64_to_le_bytes(x).reverse()
}

/// The command and data a request is sent as: a 16 bit value is set and
/// read with the value commands, wider ones with the object commands (whose
/// read request carries the size).
pub open spec fn raw_request(request: RadioRequestView) -> (RawRadioCommand, Seq<u8>) {
    match request {
        RadioRequestView::SetParam(_, param, value) => (
            match value {
                RadioParamValue::U16(_) => RawRadioCommand::SetValue,
                _ => RawRadioCommand::SetObject,
            },
            spec_u16_to_be(raw_param_number(param)) + value_bytes(value),
        ),
        RadioRequestView::GetParam(_, param, param_type) => (
            match param_type {
                RadioParamType::U16 => RawRadioCommand::GetValue,
                _ => RawRadioCommand::GetObject,
            },
            spec_u16_to_be(raw_param_number(param)) + match param_type {
                RadioParamType::U16 => Seq::<u8>::empty(),
                RadioParamType::U32 => spec_u16_to_be(4),
                RadioParamType::U64 => spec_u16_to_be(8),
            },
        ),
        RadioRequestView::InitPendingDataTable(_) => (RawRadioCommand::InitPendingTable, Seq::empty()),
        RadioRequestView::SetPower(_, power) => (
            if power {
                RawRadioCommand::On
            } else {
                RawRadioCommand::Off
            },
            Seq::empty(),
        ),
        RadioRequestView::SendPacket(_, packet) => (RawRadioCommand::Send, packet),
    }
}

/// A request, with its packet as a sequence.
pub enum RadioRequestView {
    SetParam(UniqueKey, RawRadioParam, RadioParamValue),
    GetParam(UniqueKey, RawRadioParam, RadioParamType),
    InitPendingDataTable(UniqueKey),
    SetPower(UniqueKey, bool),
    SendPacket(UniqueKey, Seq<u8>),
}

impl View for RadioRequest {
    type V = RadioRequestView;

    open spec fn view(&self) -> RadioRequestView {
        match self {
            RadioRequest::SetParam(k, p, v) => RadioRequestView::SetParam(*k, *p, *v),
            RadioRequest::GetParam(k, p, t) => RadioRequestView::GetParam(*k, *p, *t),
            RadioRequest::InitPendingDataTable(k) => RadioRequestView::InitPendingDataTable(*k),
            RadioRequest::SetPower(k, b) => RadioRequestView::SetPower(*k, *b),
            RadioRequest::SendPacket(k, d) => RadioRequestView::SendPacket(*k, d@),
        }
    }
}

/// The parser kept for a request.
pub open spec fn parser_for(request: RadioRequestView) -> RadioResponseParser {
    match request {
        RadioRequestView::SetParam(k, p, v) => RadioResponseParser::SetParam(k, p, v),
        RadioRequestView::GetParam(k, p, t) => RadioResponseParser::GetParam(k, p, t),
        RadioRequestView::InitPendingDataTable(k) => RadioResponseParser::InitPendingDataTable(k),
        RadioRequestView::SetPower(k, b) => RadioResponseParser::SetPower(k, b),
        RadioRequestView::SendPacket(k, _) => RadioResponseParser::SendPacket(k),
    }
}

/// The value of a parameter read: exactly as many big endian bytes as its
/// width.
pub open spec fn value_parse(param_type: RadioParamType, data: Seq<u8>) -> Option<RadioParamValue> {
    match param_type {
        RadioParamType::U16 => if data.len() == 2 {
            Some(RadioParamValue::U16(spec_u16_from_le_bytes(data.reverse())))
        } else {
            None
        },
        RadioParamType::U32 => if data.len() == 4 {
            Some(RadioParamValue::U32(spec_u32_from_le_bytes(data.reverse())))
        } else {
            None
        },
        RadioParamType::U64 => if data.len() == 8 {
            Some(RadioParamValue::U64(spec_u64_from_le_bytes(data.reverse())))
        } else {
            None
        },
    }
}

/// The status in a two byte reply, if it is two bytes.
pub open spec fn status_parse(data: Seq<u8>) -> Option<u16> {
    if data.len() == 2 {
        Some(spec_u16_from_le_bytes(data.reverse()))
    } else {
        None
    }
}

/// The outcome of a status reply: a zero status succeeds.
pub open spec fn status_outcome(data: Seq<u8>) -> Result<(), RadioErrorView> {
    match status_parse(data) {
        None => Err(RadioErrorView::UnexpectedResponseSize),
        Some(s) => if s == 0 {
            Ok(())
        } else {
            Err(RadioErrorView::RetvalError(s, Seq::empty()))
        },
    }
}

fn be_u16(x: u16) -> (r: Vec<u8>)
    ensures
        r@ == spec_u16_to_be(x),
{
    let le = u16_to_le_bytes(x);
    let mut r: Vec<u8> = Vec::new();
    r.push(le[1]);
    r.push(le[0]);
    assert(r@ =~= le@.reverse());
    r
}

fn be_u32(x: u32) -> (r: Vec<u8>)
    ensures
        r@ == spec_u32_to_be(x),
{
    let le = u32_to_le_bytes(x);
    let mut r: Vec<u8> = Vec::new();
    let mut i: usize = 4;
    while i > 0
        invariant
            i <= 4,
            le@.len() == 4,
            r@ == le@.reverse().take(4 - i),
        decreases i,
    {
        i = i - 1;
        r.push(le[i]);
        assert(r@ =~= le@.reverse().take(4 - i));
    }
    assert(le@.reverse().take(4) =~= le@.reverse());
    r
}

fn be_u64(x: u64) -> (r: Vec<u8>)
    ensures
        r@ == spec_u64_to_be(x),
{
    let le = u64_to_le_bytes(x);
    let mut r: Vec<u8> = Vec::new();
    let mut i: usize = 8;
    while i > 0
        invariant
            i <= 8,
            le@.len() == 8,
            r@ == le@.reverse().take(8 - i),
        decreases i,
    {
        i = i - 1;
        r.push(le[i]);
        assert(r@ =~= le@.reverse().take(8 - i));
    }
    assert(le@.reverse().take(8) =~= le@.reverse());
    r
}

/// Reverses a byte slice.
fn reversed(data: &[u8]) -> (r: Vec<u8>)
    ensures
        r@ == data@.reverse(),
{
    let mut r: Vec<u8> = Vec::new();
    let mut i: usize = data.len();
    while i > 0
        invariant
            i <= data@.len(),
            r@ == data@.reverse().take(data@.len() - i),
        decreases i,
    {
        i = i - 1;
        r.push(data[i]);
        assert(r@ =~= data@.reverse().take(data@.len() - i));
    }
    assert(data@.reverse().take(data@.len() as int) =~= data@.reverse());
    r
}

impl RadioParamValue {
    /// The value of a parameter read of width `param_type` from `data`.
    pub fn from_response(param_type: RadioParamType, data: &[u8]) -> (r: Result<RadioParamValue, RadioError>)
        ensures
            match value_parse(param_type, data@) {
                Some(v) => r == Ok::<RadioParamValue, RadioError>(v),
                None => r matches Err(RadioError::UnexpectedResponseSize),
            },
    {
        let rev = reversed(data);
        match param_type {
            RadioParamType::U16 => if data.len() == 2 {
                Ok(RadioParamValue::U16(u16_from_le_bytes(rev.as_slice())))
            } else {
                Err(RadioError::UnexpectedResponseSize)
            },
            RadioParamType::U32 => if data.len() == 4 {
                Ok(RadioParamValue::U32(u32_from_le_bytes(rev.as_slice())))
            } else {
                Err(RadioError::UnexpectedResponseSize)
            },
            RadioParamType::U64 => if data.len() == 8 {
                Ok(RadioParamValue::U64(u64_from_le_bytes(rev.as_slice())))
            } else {
                Err(RadioError::UnexpectedResponseSize)
            },
        }
    }

    /// The value, if it is 16 bits wide.
    pub fn into_u16(self) -> (r: Result<u16, RadioError>)
        ensures
            match self {
                RadioParamValue::U16(x) => r == Ok::<u16, RadioError>(x),
                _ => r matches Err(RadioError::UnexpectedResponseSize),
            },
    {
        match self {
            RadioParamValue::U16(x) => Ok(x),
            _ => Err(RadioError::UnexpectedResponseSize),
        }
    }

    /// The value, if it is 32 bits wide.
    pub fn into_u32(self) -> (r: Result<u32, RadioError>)
        ensures
            match self {
                RadioParamValue::U32(x) => r == Ok::<u32, RadioError>(x),
                _ => r matches Err(RadioError::UnexpectedResponseSize),
            },
    {
        match self {
            RadioParamValue::U32(x) => Ok(x),
            _ => Err(RadioError::UnexpectedResponseSize),
        }
    }

    /// The value, if it is 64 bits wide.
    pub fn into_u64(self) -> (r: Result<u64, RadioError>)
        ensures
            match self {
                RadioParamValue::U64(x) => r == Ok::<u64, RadioError>(x),
                _ => r matches Err(RadioError::UnexpectedResponseSize),
            },
    {
        match self {
            RadioParamValue::U64(x) => Ok(x),
            _ => Err(RadioError::UnexpectedResponseSize),
        }
    }
}

/// The status of a two byte reply.
fn status_of(data: &[u8]) -> (r: Result<(), RadioError>)
    ensures
        match status_outcome(data@) {
            Ok(()) => r is Ok,
            Err(e) => r matches Err(f) && f@ == e,
        },
{
    if data.len() != 2 {
        return Err(RadioError::UnexpectedResponseSize);
    }
    let rev = reversed(data);
    let retval = u16_from_le_bytes(rev.as_slice());
    if retval == 0 {
        Ok(())
    } else {
        let r = Err(RadioError::RetvalError(retval, Vec::new()));
        assert(r->Err_0@ == RadioErrorView::RetvalError(retval, Seq::<u8>::empty()));
        r
    }
}

impl RadioRequest {
    /// The command and data to send for the request, and the parser its
    /// reply is read with.
    pub fn into_raw(self) -> (r: (RawRadioCommand, Vec<u8>, RadioResponseParser))
        ensures
            (r.0, r.1@) == raw_request(self@),
            r.2 == parser_for(self@),
    {
        match self {
            RadioRequest::SetParam(token, param, param_value) => {
                let command = match param_value {
                    RadioParamValue::U16(_) => RawRadioCommand::SetValue,
                    _ => RawRadioCommand::SetObject,
                };
                let mut data = be_u16(param.number());
                let value = match param_value {
                    RadioParamValue::U16(v) => be_u16(v),
                    RadioParamValue::U32(v) => be_u32(v),
                    RadioParamValue::U64(v) => be_u64(v),
                };
                data.extend_from_slice(value.as_slice());
                assert(data@ =~= spec_u16_to_be(raw_param_number(param)) + value_bytes(param_value));
                (command, data, RadioResponseParser::SetParam(token, param, param_value))
            },
            RadioRequest::GetParam(token, param, param_type) => {
                let command = match param_type {
                    RadioParamType::U16 => RawRadioCommand::GetValue,
                    _ => RawRadioCommand::GetObject,
                };
                let mut data = be_u16(param.number());
                let ghost start = data@;
                match param_type {
                    RadioParamType::U16 => {
                        assert(data@ =~= start + Seq::<u8>::empty());
                    },
                    RadioParamType::U32 => {
                        let size = be_u16(4);
                        data.extend_from_slice(size.as_slice());
                        assert(data@ =~= start + spec_u16_to_be(4));
                    },
                    RadioParamType::U64 => {
                        let size = be_u16(8);
                        data.extend_from_slice(size.as_slice());
                        assert(data@ =~= start + spec_u16_to_be(8));
                    },
                }
                (command, data, RadioResponseParser::GetParam(token, param, param_type))
            },
            RadioRequest::InitPendingDataTable(token) => {
                let data: Vec<u8> = Vec::new();
                assert(data@ =~= Seq::<u8>::empty());
                (RawRadioCommand::InitPendingTable, data, RadioResponseParser::InitPendingDataTable(token))
            },
            RadioRequest::SetPower(token, power) => {
                let data: Vec<u8> = Vec::new();
                assert(data@ =~= Seq::<u8>::empty());
                (
                    if power {
                        RawRadioCommand::On
                    } else {
                        RawRadioCommand::Off
                    },
                    data,
                    RadioResponseParser::SetPower(token, power),
                )
            },
            RadioRequest::SendPacket(token, packet) => (
                RawRadioCommand::Send,
                packet,
                RadioResponseParser::SendPacket(token),
            ),
        }
    }
}

/// Whether `r` is the response `parser` makes of `response`: a set
/// confirms the value sent on a zero status; a read decodes the value; the
/// others succeed on a zero status. Errors pass through.
pub open spec fn parsed_response(
    parser: RadioResponseParser,
    response: Result<Seq<u8>, RadioErrorView>,
    r: RadioResponse,
) -> bool {
    match parser {
        RadioResponseParser::SetParam(k, p, v) => r matches RadioResponse::SetParam(k2, p2, res) && k2 == k && p2 == p
            && match response {
            Err(e) => res matches Err(f) && f@ == e,
            Ok(data) => match status_outcome(data) {
                Ok(()) => res == Ok::<RadioParamValue, RadioError>(v),
                Err(e) => res matches Err(f) && f@ == e,
            },
        },
        RadioResponseParser::GetParam(k, p, t) => r matches RadioResponse::GetParam(k2, p2, res) && k2 == k && p2 == p
            && match response {
            Err(e) => res matches Err(f) && f@ == e,
            Ok(data) => match value_parse(t, data) {
                Some(v) => res == Ok::<RadioParamValue, RadioError>(v),
                None => res matches Err(RadioError::UnexpectedResponseSize),
            },
        },
        RadioResponseParser::InitPendingDataTable(k) => r matches RadioResponse::InitPendingDataTable(k2, res) && k2
            == k && unit_outcome(response, res),
        RadioResponseParser::SetPower(k, b) => r matches RadioResponse::SetPower(k2, b2, res) && k2 == k && b2 == b
            && unit_outcome(response, res),
        RadioResponseParser::SendPacket(k) => r matches RadioResponse::SendPacket(k2, res) && k2 == k && unit_outcome(
            response,
            res,
        ),
    }
}

/// Whether `res` is the outcome of a status reply `response`.
pub open spec fn unit_outcome(response: Result<Seq<u8>, RadioErrorView>, res: Result<(), RadioError>) -> bool {
    match response {
        Err(e) => res matches Err(f) && f@ == e,
        Ok(data) => match status_outcome(data) {
            Ok(()) => res is Ok,
            Err(e) => res matches Err(f) && f@ == e,
        },
    }
}

/// A response as the parser sees it.
pub open spec fn response_view(response: Result<&[u8], RadioError>) -> Result<Seq<u8>, RadioErrorView> {
    match response {
        Ok(d) => Ok(d@),
        Err(e) => Err(e@),
    }
}

impl RadioResponseParser {
    /// The response to the request, from what the radio replied.
    pub fn parse(self, response: Result<&[u8], RadioError>) -> (r: RadioResponse)
        ensures
            parsed_response(self, response_view(response), r),
    {
        match self {
            RadioResponseParser::SetParam(token, param, param_value) => {
                let res = match response {
                    Err(e) => Err(e),
                    Ok(data) => match status_of(data) {
                        Ok(()) => Ok(param_value),
                        Err(e) => Err(e),
                    },
                };
                RadioResponse::SetParam(token, param, res)
            },
            RadioResponseParser::GetParam(token, param, param_type) => {
                let res = match response {
                    Err(e) => Err(e),
                    Ok(data) => RadioParamValue::from_response(param_type, data),
                };
                RadioResponse::GetParam(token, param, res)
            },
            RadioResponseParser::InitPendingDataTable(token) => {
                let res = match response {
                    Err(e) => Err(e),
                    Ok(data) => status_of(data),
                };
                RadioResponse::InitPendingDataTable(token, res)
            },
            RadioResponseParser::SetPower(token, power) => {
                let res = match response {
                    Err(e) => Err(e),
                    Ok(data) => status_of(data),
                };
                RadioResponse::SetPower(token, power, res)
            },
            RadioResponseParser::SendPacket(token) => {
                let res = match response {
                    Err(e) => Err(e),
                    Ok(data) => status_of(data),
                };
                RadioResponse::SendPacket(token, res)
            },
        }
    }
}

/// What a success reply hands to the parser: a reply without a status is
/// too short; a non-zero status is an error carrying the rest; after a zero
/// status, the rest.
pub open spec fn ok_reply_spec(data: Seq<u8>) -> Result<Seq<u8>, RadioErrorView> {
    if data.len() < 2 {
        Err(RadioErrorView::UnexpectedResponseSize)
    } else {
        let retval = spec_u16_from_le_bytes(data.take(2).reverse());
        if retval == 0 {
            Ok(data.skip(2))
        } else {
            Err(RadioErrorView::RetvalError(retval, data.skip(2)))
        }
    }
}

/// Reads the status at the front of a success reply.
pub fn ok_reply(data: &[u8]) -> (r: Result<&[u8], RadioError>)
    ensures
        response_view(r) == ok_reply_spec(data@),
{
    if data.len() < 2 {
        return Err(RadioError::UnexpectedResponseSize);
    }
    let (head, rest) = data.split_at(2);
    let rev = reversed(head);
    assert(head@ =~= data@.take(2));
    assert(rest@ =~= data@.skip(2));
    let retval = u16_from_le_bytes(rev.as_slice());
    if retval == 0 {
        Ok(rest)
    } else {
        let tail = crate::parse_serialize::take_all(rest);
        Err(RadioError::RetvalError(retval, tail))
    }
}

} // verus!
