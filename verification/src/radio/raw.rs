//! Messages exchanged with the radio over the serial line: the magic prefix
//! `ZPB`, a command, a request identifier and a data length (big endian),
//! then the data.
use crate::pack::{ExtEnum, ExtEnumError};
use crate::parse_serialize::take_all;
use crate::radio_bridge::serial_protocol::{be16, find_first, find_subsequence, magic_prefix, read_be16};
use vstd::prelude::*;

verus! {

/// The commands of the radio protocol.
#[derive(Debug, Eq, PartialEq, Structural, Copy, Clone)]
pub enum RawRadioCommand {
    Prepare,
    Transmit,
    Send,
    ChannelClear,
    On,
    Off,
    GetValue,
    SetValue,
    GetObject,
    SetObject,
    InitPendingTable,
    SetPending,
    /// The reply to a request that succeeded.
    OkReply,
    /// The reply to a request that failed.
    ErrReply,
    /// A packet the radio received.
    OnPacket,
}

/// The tag of a command.
pub open spec fn raw_command_tag(c: RawRadioCommand) -> u8 {
    match c {
        RawRadioCommand::Prepare => 0,
        RawRadioCommand::Transmit => 1,
        RawRadioCommand::Send => 2,
        RawRadioCommand::ChannelClear => 3,
        RawRadioCommand::On => 4,
        RawRadioCommand::Off => 5,
        RawRadioCommand::GetValue => 6,
        RawRadioCommand::SetValue => 7,
        RawRadioCommand::GetObject => 8,
        RawRadioCommand::SetObject => 9,
        RawRadioCommand::InitPendingTable => 10,
        RawRadioCommand::SetPending => 11,
        RawRadioCommand::OkReply => 0x80,
        RawRadioCommand::ErrReply => 0x81,
        RawRadioCommand::OnPacket => 0xC0,
    }
}

/// The command with a tag, if any.
pub open spec fn raw_command_of(tag: u8) -> Option<RawRadioCommand> {
    if tag == 0 {
        Some(RawRadioCommand::Prepare)
    } else if tag == 1 {
        Some(RawRadioCommand::Transmit)
    } else if tag == 2 {
        Some(RawRadioCommand::Send)
    } else if tag == 3 {
        Some(RawRadioCommand::ChannelClear)
    } else if tag == 4 {
        Some(RawRadioCommand::On)
    } else if tag == 5 {
        Some(RawRadioCommand::Off)
    } else if tag == 6 {
        Some(RawRadioCommand::GetValue)
    } else if tag == 7 {
        Some(RawRadioCommand::SetValue)
    } else if tag == 8 {
        Some(RawRadioCommand::GetObject)
    } else if tag == 9 {
        Some(RawRadioCommand::SetObject)
    } else if tag == 10 {
        Some(RawRadioCommand::InitPendingTable)
    } else if tag == 11 {
        Some(RawRadioCommand::SetPending)
    } else if tag == 0x80 {
        Some(RawRadioCommand::OkReply)
    } else if tag == 0x81 {
        Some(RawRadioCommand::ErrReply)
    } else if tag == 0xC0 {
        Some(RawRadioCommand::OnPacket)
    } else {
        None
    }
}

/// Every command's tag names it.
pub proof fn lemma_raw_command_tag_roundtrip(c: RawRadioCommand)
    ensures
        raw_command_of(raw_command_tag(c)) == Some(c),
{
}

impl ExtEnum for RawRadioCommand {
    type Tag = u8;

    fn into_tag(&self) -> (r: u8)
        ensures
            r == raw_command_tag(*self),
    {
        match self {
            RawRadioCommand::Prepare => 0,
            RawRadioCommand::Transmit => 1,
            RawRadioCommand::Send => 2,
            RawRadioCommand::ChannelClear => 3,
            RawRadioCommand::On => 4,
            RawRadioCommand::Off => 5,
            RawRadioCommand::GetValue => 6,
            RawRadioCommand::SetValue => 7,
            RawRadioCommand::GetObject => 8,
            RawRadioCommand::SetObject => 9,
            RawRadioCommand::InitPendingTable => 10,
            RawRadioCommand::SetPending => 11,
            RawRadioCommand::OkReply => 0x80,
            RawRadioCommand::ErrReply => 0x81,
            RawRadioCommand::OnPacket => 0xC0,
        }
    }

    fn try_from_tag(value: u8) -> (r: Result<Self, ExtEnumError>)
        ensures
            r == match raw_command_of(value) {
                Some(c) => Ok::<RawRadioCommand, ExtEnumError>(c),
                None => Err(ExtEnumError::InvalidTag),
            },
    {
        if value == 0 {
            Ok(RawRadioCommand::Prepare)
        } else if value == 1 {
            Ok(RawRadioCommand::Transmit)
        } else if value == 2 {
            Ok(RawRadioCommand::Send)
        } else if value == 3 {
            Ok(RawRadioCommand::ChannelClear)
        } else if value == 4 {
            Ok(RawRadioCommand::On)
        } else if value == 5 {
            Ok(RawRadioCommand::Off)
        } else if value == 6 {
            Ok(RawRadioCommand::GetValue)
        } else if value == 7 {
            Ok(RawRadioCommand::SetValue)
        } else if value == 8 {
            Ok(RawRadioCommand::GetObject)
        } else if value == 9 {
            Ok(RawRadioCommand::SetObject)
        } else if value == 10 {
            Ok(RawRadioCommand::InitPendingTable)
        } else if value == 11 {
            Ok(RawRadioCommand::SetPending)
        } else if value == 0x80 {
            Ok(RawRadioCommand::OkReply)
        } else if value == 0x81 {
            Ok(RawRadioCommand::ErrReply)
        } else if value == 0xC0 {
            Ok(RawRadioCommand::OnPacket)
        } else {
            Err(ExtEnumError::InvalidTag)
        }
    }
}

/// A message of the radio protocol.
#[derive(Debug, Clone, PartialEq, Eq)]
pub struct RawRadioMessage {
    pub command_id: RawRadioCommand,
    pub request_id: u16,
    pub data: Vec<u8>,
}

/// A message, with its data as a sequence.
#[verifier::ext_equal]
pub struct RawRadioMessageView {
    pub command_id: RawRadioCommand,
    pub request_id: u16,
    pub data: Seq<u8>,
}

impl View for RawRadioMessage {
    type V = RawRadioMessageView;

    open spec fn view(&self) -> RawRadioMessageView {
        RawRadioMessageView { command_id: self.command_id, request_id: self.request_id, data: self.data@ }
    }
}

/// The parameters of the radio.
#[derive(Debug, Clone, Copy, PartialEq, Eq, Structural, Hash)]
pub enum RawRadioParam {
    PowerMode,
    Channel,
    PanId,
    ShortAddress,
    RxMode,
    TxMode,
    TxPower,
    CcaThreshold,
    Rssi,
    LastRssi,
    LastLinkQuality,
    LongAddress,
    LastPacketTimestamp,
    ChannelMin,
    ChannelMax,
    TxPowerMin,
    TxPowerMax,
}

/// The number of a radio parameter.
pub open spec fn raw_param_number(p: RawRadioParam) -> u16 {
    match p {
        RawRadioParam::PowerMode => 0,
        RawRadioParam::Channel => 1,
        RawRadioParam::PanId => 2,
        RawRadioParam::ShortAddress => 3,
        RawRadioParam::RxMode => 4,
        RawRadioParam::TxMode => 5,
        RawRadioParam::TxPower => 6,
        RawRadioParam::CcaThreshold => 7,
        RawRadioParam::Rssi => 8,
        RawRadioParam::LastRssi => 9,
        RawRadioParam::LastLinkQuality => 10,
        RawRadioParam::LongAddress => 11,
        RawRadioParam::LastPacketTimestamp => 12,
        RawRadioParam::ChannelMin => 13,
        RawRadioParam::ChannelMax => 14,
        RawRadioParam::TxPowerMin => 15,
        RawRadioParam::TxPowerMax => 16,
    }
}

impl RawRadioParam {
    /// The number the radio knows the parameter by.
    pub fn number(&self) -> (r: u16)
        ensures
            r == raw_param_number(*self),
    {
        match self {
            RawRadioParam::PowerMode => 0,
            RawRadioParam::Channel => 1,
            RawRadioParam::PanId => 2,
            RawRadioParam::ShortAddress => 3,
            RawRadioParam::RxMode => 4,
            RawRadioParam::TxMode => 5,
            RawRadioParam::TxPower => 6,
            RawRadioParam::CcaThreshold => 7,
            RawRadioParam::Rssi => 8,
            RawRadioParam::LastRssi => 9,
            RawRadioParam::LastLinkQuality => 10,
            RawRadioParam::LongAddress => 11,
            RawRadioParam::LastPacketTimestamp => 12,
            RawRadioParam::ChannelMin => 13,
            RawRadioParam::ChannelMax => 14,
            RawRadioParam::TxPowerMin => 15,
            RawRadioParam::TxPowerMax => 16,
        }
    }
}

/// How many data bytes a message carries on the line: at most 0xFFFF.
pub open spec fn sent_data_length(m: RawRadioMessageView) -> nat {
    if m.data.len() > 0xFFFF {
        0xFFFF
    } else {
        m.data.len()
    }
}

/// The bytes of a message; data beyond 0xFFFF bytes is cut off.
pub open spec fn raw_message_bytes(m: RawRadioMessageView) -> Seq<u8> {
    magic_prefix() + seq![raw_command_tag(m.command_id)] + be16(m.request_id) + be16(sent_data_length(m) as u16)
        + m.data.take(sent_data_length(m) as int)
}

proof fn lemma_be16_bytes(x: u16)
    by (bit_vector)
    ensures
        ((((x >> 8u16) as u8) as u16) << 8u16) | (((x & 0xFF) as u8) as u16) == x,
{
}

/// Reading an encoded message gives it back, whatever follows it, when its
/// data fits in a message.
pub proof fn lemma_raw_message_roundtrip(m: RawRadioMessageView, rest: Seq<u8>)
    requires
        m.data.len() <= 0xFFFF,
    ensures
        raw_message_parse(raw_message_bytes(m) + rest) == Ok::<(RawRadioMessageView, nat), RawParseError>(
            (m, raw_message_bytes(m).len()),
        ),
{
    let b = raw_message_bytes(m) + rest;
    let len = m.data.len() as u16;
    lemma_be16_bytes(m.request_id);
    lemma_be16_bytes(len);
    lemma_raw_command_tag_roundtrip(m.command_id);
    assert(m.data.take(m.data.len() as int) =~= m.data);
    assert(b[3] == raw_command_tag(m.command_id));
    assert(b.skip(4)[0] == (m.request_id >> 8u16) as u8 && b.skip(4)[1] == (m.request_id & 0xFF) as u8);
    assert(b.skip(6)[0] == (len >> 8u16) as u8 && b.skip(6)[1] == (len & 0xFF) as u8);
    assert(b.subrange(8, 8 + m.data.len() as int) =~= m.data);
    let (v, n) = raw_message_parse(b)->Ok_0;
    assert(v =~= m);
}

/// The encoding of a message.
pub fn gen_raw_radio_message(msg: &RawRadioMessage) -> (r: Vec<u8>)
    ensures
        r@ == raw_message_bytes(msg@),
{
    let mut res: Vec<u8> = Vec::new();
    res.push(0x5Au8);
    res.push(0x50u8);
    res.push(0x42u8);
    res.push(msg.command_id.into_tag());
    res.push((msg.request_id >> 8u16) as u8);
    res.push((msg.request_id & 0xFF) as u8);
    let len: u16 = if msg.data.len() > 0xFFFF {
        0xFFFF
    } else {
        msg.data.len() as u16
    };
    res.push((len >> 8u16) as u8);
    res.push((len & 0xFF) as u8);
    let (head, _) = msg.data.as_slice().split_at(len as usize);
    res.extend_from_slice(head);
    proof {
        assert(head@ =~= msg.data@.take(len as int));
        assert(res@ =~= raw_message_bytes(msg@));
    }
    res
}


/// Why a message could not be read.
#[derive(Debug, Clone, Copy, PartialEq, Eq, Structural)]
pub enum RawParseError {
    /// More bytes are needed.
    Incomplete,
    /// The bytes do not start with the magic prefix.
    BadPrefix,
}

/// Whether the first `n` bytes of `data` and of the prefix agree.
pub open spec fn prefix_agrees(data: Seq<u8>) -> bool {
    forall|i: int| 0 <= i < data.len() && i < 3 ==> data[i] == magic_prefix()[i]
}

/// Reading a message from the front of `data`: its bytes and how many it
/// took.
pub open spec fn raw_message_parse(data: Seq<u8>) -> Result<(RawRadioMessageView, nat), RawParseError> {
    if !prefix_agrees(data) {
        Err(RawParseError::BadPrefix)
    } else if data.len() < 8 {
        Err(RawParseError::Incomplete)
    } else {
        let len = read_be16(data.skip(6));
        if data.len() < 8 + len {
            Err(RawParseError::Incomplete)
        } else {
            Ok(
                (
                    RawRadioMessageView {
                        command_id: raw_command_of(data[3])->Some_0,
                        request_id: read_be16(data.skip(4)),
                        data: data.subrange(8, 8 + len),
                    },
                    (8 + len) as nat,
                ),
            )
        }
    }
}

/// Whether the command byte of a message at the front of `data`, once
/// there, names a command.
pub open spec fn command_byte_valid(data: Seq<u8>) -> bool {
    data.len() >= 4 && prefix_agrees(data) ==> raw_command_of(data[3]) is Some
}

/// Reads a message from the front of `input`; returns what is left and the
/// message.
pub fn parse_raw_radio_message(input: &[u8]) -> (r: Result<(&[u8], RawRadioMessage), RawParseError>)
    requires
        command_byte_valid(input@),
    ensures
        match raw_message_parse(input@) {
            Ok((m, n)) => r matches Ok((rest, msg)) && msg@ == m && rest@ == input@.skip(n as int),
            Err(e) => r == Err::<(&[u8], RawRadioMessage), RawParseError>(e),
        },
{
    let magic: [u8; 3] = [0x5A, 0x50, 0x42];
    let mut i: usize = 0;
    while i < 3 && i < input.len()
        invariant
            i <= 3,
            i <= input@.len(),
            magic@ == magic_prefix(),
            forall|j: int| 0 <= j < i ==> input@[j] == magic_prefix()[j],
        decreases 3 - i,
    {
        if input[i] != magic[i] {
            return Err(RawParseError::BadPrefix);
        }
        i = i + 1;
    }
    if input.len() < 8 {
        return Err(RawParseError::Incomplete);
    }
    let command_id = match RawRadioCommand::try_from_tag(input[3]) {
        Ok(c) => c,
        Err(_) => {
            return Err(RawParseError::BadPrefix);
        },
    };
    let request_id = ((input[4] as u16) << 8u16) | (input[5] as u16);
    let data_len = ((input[6] as u16) << 8u16) | (input[7] as u16);
    assert(input@.skip(4)[0] == input@[4] && input@.skip(4)[1] == input@[5]);
    assert(input@.skip(6)[0] == input@[6] && input@.skip(6)[1] == input@[7]);
    if input.len() - 8 < data_len as usize {
        return Err(RawParseError::Incomplete);
    }
    let end: usize = 8 + data_len as usize;
    let (front, rest) = input.split_at(end);
    let (_, data) = front.split_at(8);
    let v = take_all(data);
    proof {
        assert(v@ =~= input@.subrange(8, end as int));
        assert(rest@ =~= input@.skip(end as int));
    }
    Ok((rest, RawRadioMessage { command_id, request_id, data: v }))
}

/// What is kept of a receive buffer and the message taken from it: fewer
/// than three bytes are kept as they are; without the prefix, the last three
/// bytes are kept (they may start it); else what precedes the prefix is
/// dropped, and a complete message is taken out.
pub open spec fn pop_spec(buffer: Seq<u8>) -> (Seq<u8>, Option<RawRadioMessageView>) {
    if buffer.len() < 3 {
        (buffer, None)
    } else {
        match find_first(buffer, magic_prefix()) {
            None => (buffer.skip(buffer.len() - 3), None),
            Some(index) => {
                let from_prefix = buffer.skip(index);
                match raw_message_parse(from_prefix) {
                    Ok((m, n)) => (from_prefix.skip(n as int), Some(m)),
                    Err(_) => (from_prefix, None),
                }
            },
        }
    }
}

/// Whether a receive buffer's message, once complete, names a command.
pub open spec fn pop_valid(buffer: Seq<u8>) -> bool {
    buffer.len() >= 3 ==> match find_first(buffer, magic_prefix()) {
        Some(index) => command_byte_valid(buffer.skip(index)),
        None => true,
    }
}

/// Takes the next message out of the first bytes of `buffer`: the bytes to
/// keep are moved to its front and their number is returned, with the
/// message if one was complete.
pub fn pop_raw_message(buffer: &mut [u8]) -> (r: (usize, Option<RawRadioMessage>))
    requires
        pop_valid(old(buffer)@),
    ensures
        final(buffer)@.len() == old(buffer)@.len(),
        r.0 <= final(buffer)@.len(),
        final(buffer)@.take(r.0 as int) == pop_spec(old(buffer)@).0,
        match pop_spec(old(buffer)@).1 {
            Some(m) => r.1 matches Some(msg) && msg@ == m,
            None => r.1 is None,
        },
{
    let n = buffer.len();
    if n < 3 {
        assert(buffer@.take(n as int) =~= buffer@);
        return (n, None);
    }
    let magic: [u8; 3] = [0x5A, 0x50, 0x42];
    assert(magic@ =~= magic_prefix());
    let (kept, message) = match find_subsequence(buffer, &magic) {
        None => {
            let (_, tail) = buffer.split_at(n - 3);
            (take_all(tail), None)
        },
        Some(index) => {
            let (_, from_prefix) = buffer.split_at(index);
            assert(from_prefix@ =~= buffer@.skip(index as int));
            match parse_raw_radio_message(from_prefix) {
                Ok((remaining, message)) => (take_all(remaining), Some(message)),
                Err(_) => (take_all(from_prefix), None),
            }
        },
    };
    let k = kept.len();
    let mut i: usize = 0;
    while i < k
        invariant
            i <= k,
            k == kept@.len(),
            k <= n,
            buffer@.len() == n,
            forall|j: int| 0 <= j < i ==> buffer@[j] == kept@[j],
        decreases k - i,
    {
        buffer[i] = kept[i];
        i = i + 1;
    }
    assert(buffer@.take(k as int) =~= kept@);
    (k, message)
}

/// Whether the message at the front of `data`, once its command byte is
/// there, names a command.
fn command_byte_ok(data: &[u8]) -> (r: bool)
    ensures
        r == command_byte_valid(data@),
{
    if data.len() >= 4 && data[0] == 0x5A && data[1] == 0x50 && data[2] == 0x42 {
        assert(prefix_agrees(data@));
        RawRadioCommand::try_from_tag(data[3]).is_ok()
    } else {
        if data.len() >= 4 {
            assert(!prefix_agrees(data@)) by {
                if data[0] != 0x5A {
                    assert(data@[0] != magic_prefix()[0]);
                } else if data[1] != 0x50 {
                    assert(data@[1] != magic_prefix()[1]);
                } else {
                    assert(data@[2] != magic_prefix()[2]);
                }
            }
        }
        true
    }
}

/// Whether `pop_raw_message` can be given `buffer`: the message it holds
/// names a command.
pub fn pop_is_valid(buffer: &[u8]) -> (r: bool)
    ensures
        r == pop_valid(buffer@),
{
    if buffer.len() < 3 {
        return true;
    }
    let magic: [u8; 3] = [0x5A, 0x50, 0x42];
    assert(magic@ =~= magic_prefix());
    match find_subsequence(buffer, &magic) {
        None => true,
        Some(index) => {
            let (_, from_prefix) = buffer.split_at(index);
            assert(from_prefix@ =~= buffer@.skip(index as int));
            command_byte_ok(from_prefix)
        },
    }
}

} // verus!
