//! Requests to the radio bridge and the bookkeeping of their replies: each
//! request gets an identifier, and the reply carrying it resolves or rejects
//! the request.
use crate::radio_bridge::serial_protocol::Command;
use futures::channel::oneshot;
use futures::channel::oneshot::Canceled;
use std::collections::HashMap;
use vstd::prelude::*;

verus! {

broadcast use vstd::std_specs::hash::group_hash_axioms;

/// The cancellation error of `futures`' one-shot channels.
#[verifier::external_type_specification]
#[verifier::external_body]
pub struct ExCanceled(Canceled);

/// The commands the bridge accepts.
#[derive(Debug, Clone, Copy, PartialEq, Eq, Structural)]
pub enum RequestCommand {
    RadioPrepare,
    RadioTransmit,
    RadioSend,
    RadioChannelClear,
    RadioOn,
    RadioOff,
    RadioGetValue,
    RadioSetValue,
    RadioGetObject,
    RadioSetObject,
    RadioInitPendingTable,
    RadioSetPending,
}

/// The command identifier of a request command.
pub open spec fn request_command_id(c: RequestCommand) -> u8 {
    match c {
        RequestCommand::RadioPrepare => 0,
        RequestCommand::RadioTransmit => 1,
        RequestCommand::RadioSend => 2,
        RequestCommand::RadioChannelClear => 3,
        RequestCommand::RadioOn => 4,
        RequestCommand::RadioOff => 5,
        RequestCommand::RadioGetValue => 6,
        RequestCommand::RadioSetValue => 7,
        RequestCommand::RadioGetObject => 8,
        RequestCommand::RadioSetObject => 9,
        RequestCommand::RadioInitPendingTable => 10,
        RequestCommand::RadioSetPending => 11,
    }
}

impl RequestCommand {
    /// The command identifier sent for this command.
    pub fn command_id(&self) -> (r: u8)
        ensures
            r == request_command_id(*self),
    {
        match self {
            RequestCommand::RadioPrepare => 0,
            RequestCommand::RadioTransmit => 1,
            RequestCommand::RadioSend => 2,
            RequestCommand::RadioChannelClear => 3,
            RequestCommand::RadioOn => 4,
            RequestCommand::RadioOff => 5,
            RequestCommand::RadioGetValue => 6,
            RequestCommand::RadioSetValue => 7,
            RequestCommand::RadioGetObject => 8,
            RequestCommand::RadioSetObject => 9,
            RequestCommand::RadioInitPendingTable => 10,
            RequestCommand::RadioSetPending => 11,
        }
    }
}

/// A request: a command and its data.
#[derive(Debug, Clone, PartialEq, Eq)]
pub struct Request {
    pub command_id: RequestCommand,
    pub data: Vec<u8>,
}

/// Why a request failed.
#[derive(Debug)]
pub enum Error {
    /// The bridge rejected the request, with this data.
    BridgeError(Vec<u8>),
    /// The reply could not be delivered.
    OneshotError(Canceled),
}

/// A packet the radio received, with its signal strength and link quality.
#[derive(Debug, Clone, PartialEq, Eq)]
pub struct IncomingPacket {
    pub packet: Vec<u8>,
    pub rssi: u8,
    pub link_quality: u8,
}

/// What a command from the bridge asks of the service.
#[derive(Debug, Clone, PartialEq, Eq)]
pub enum IncomingEvent {
    /// Resolve the request with this identifier with this data.
    Resolve(u16, Vec<u8>),
    /// Reject the request with this identifier with this data.
    Reject(u16, Vec<u8>),
    /// Hand on a received packet.
    Packet(IncomingPacket),
    /// A received packet came without its signal strength and link quality.
    PacketWithoutPostfix,
    /// A command the service does not expect, with its identifier.
    Unexpected(u8),
}

/// Tells what a command from the bridge asks of the service: replies `0x80`
/// (success) and `0x81` (failure) carry the request identifier; `0xC0` carries
/// a received packet followed by its signal strength and link quality.
pub fn classify_incoming_command(cmd: Command) -> (r: IncomingEvent)
    ensures
        cmd.command_id == 0x80 ==> (r matches IncomingEvent::Resolve(id, d) && id == cmd.request_id && d@ == cmd.data@),
        cmd.command_id == 0x81 ==> (r matches IncomingEvent::Reject(id, d) && id == cmd.request_id && d@ == cmd.data@),
        cmd.command_id == 0xC0 && cmd.data@.len() > 2 ==> (r matches IncomingEvent::Packet(p) && p.packet@
            == cmd.data@.take(cmd.data@.len() - 2) && p.rssi == cmd.data@[cmd.data@.len() - 2] && p.link_quality
            == cmd.data@[cmd.data@.len() - 1]),
        cmd.command_id == 0xC0 && cmd.data@.len() <= 2 ==> r == IncomingEvent::PacketWithoutPostfix,
        cmd.command_id != 0x80 && cmd.command_id != 0x81 && cmd.command_id != 0xC0 ==> r
            == IncomingEvent::Unexpected(cmd.command_id),
{
    if cmd.command_id == 0x80 {
        IncomingEvent::Resolve(cmd.request_id, cmd.data)
    } else if cmd.command_id == 0x81 {
        IncomingEvent::Reject(cmd.request_id, cmd.data)
    } else if cmd.command_id == 0xC0 {
        let n = cmd.data.len();
        if n > 2 {
            let rssi = cmd.data[n - 2];
            let link_quality = cmd.data[n - 1];
            let mut packet = cmd.data;
            packet.truncate(n - 2);
            assert(packet@ =~= cmd.data@.take(n - 2));
            IncomingEvent::Packet(IncomingPacket { packet, rssi, link_quality })
        } else {
            IncomingEvent::PacketWithoutPostfix
        }
    } else {
        IncomingEvent::Unexpected(cmd.command_id)
    }
}

/// Hands out request identifiers, counting up, and keeps a reply handle of
/// type `T` for each request in flight.
pub struct Dispatcher<T> {
    next_available_request_id: u16,
    in_flight: HashMap<u16, T>,
}

impl<T> Dispatcher<T> {
    /// The reply handles of the requests in flight, by identifier.
    pub closed spec fn in_flight(&self) -> Map<u16, T> {
        self.in_flight@
    }

    /// The identifier the next request gets.
    pub closed spec fn next_id(&self) -> u16 {
        self.next_available_request_id
    }

    /// A dispatcher with no request in flight; identifiers start at 0.
    pub fn new() -> (r: Dispatcher<T>)
        ensures
            r.in_flight() == Map::<u16, T>::empty(),
            r.next_id() == 0,
    {
        Dispatcher { next_available_request_id: 0, in_flight: HashMap::new() }
    }

    /// Registers a request with reply handle `reply`; returns its identifier.
    pub fn new_request(&mut self, reply: T) -> (r: u16)
        requires
            old(self).next_id() < u16::MAX,
        ensures
            r == old(self).next_id(),
            final(self).next_id() == old(self).next_id() + 1,
            final(self).in_flight() == old(self).in_flight().insert(r, reply),
    {
        let request_id = self.next_available_request_id;
        self.next_available_request_id = self.next_available_request_id + 1;
        self.in_flight.insert(request_id, reply);
        request_id
    }

    /// Takes the reply handle of request `request_id` out, to resolve or
    /// reject it; nothing when the request is not in flight.
    pub fn take(&mut self, request_id: u16) -> (r: Option<T>)
        ensures
            final(self).next_id() == old(self).next_id(),
            final(self).in_flight() == old(self).in_flight().remove(request_id),
            match r {
                Some(v) => old(self).in_flight().contains_key(request_id) && v == old(self).in_flight()[request_id],
                None => !old(self).in_flight().contains_key(request_id),
            },
    {
        self.in_flight.remove(&request_id)
    }
}

/// Whether `r` hands back `channel` with the reply `Ok(data)`.
pub open spec fn handed_back_ok(
    r: Option<(oneshot::Sender<Result<Vec<u8>, Error>>, Result<Vec<u8>, Error>)>,
    channel: oneshot::Sender<Result<Vec<u8>, Error>>,
    data: Seq<u8>,
) -> bool {
    match r {
        Some((c, Ok(d))) => c == channel && d@ == data,
        _ => false,
    }
}

/// Whether `r` hands back `channel` with the bridge's error holding `error`.
pub open spec fn handed_back_err(
    r: Option<(oneshot::Sender<Result<Vec<u8>, Error>>, Result<Vec<u8>, Error>)>,
    channel: oneshot::Sender<Result<Vec<u8>, Error>>,
    error: Seq<u8>,
) -> bool {
    match r {
        Some((c, Err(Error::BridgeError(e)))) => c == channel && e@ == error,
        _ => false,
    }
}

impl Dispatcher<oneshot::Sender<Result<Vec<u8>, Error>>> {
    /// Resolves request `request_id` with the data of its reply: the request
    /// leaves the requests in flight, and its channel is handed back with
    /// the reply to send on it; nothing when it was not in flight.
    pub fn resolve(&mut self, request_id: u16, data: Vec<u8>) -> (r: Option<
        (oneshot::Sender<Result<Vec<u8>, Error>>, Result<Vec<u8>, Error>),
    >)
        ensures
            final(self).next_id() == old(self).next_id(),
            final(self).in_flight() == old(self).in_flight().remove(request_id),
            !old(self).in_flight().contains_key(request_id) ==> r is None,
            old(self).in_flight().contains_key(request_id) ==> handed_back_ok(
                r,
                old(self).in_flight()[request_id],
                data@,
            ),
    {
        match self.take(request_id) {
            Some(sender) => Some((sender, Ok(data))),
            None => None,
        }
    }

    /// Rejects request `request_id` with the data of the bridge's error: the
    /// request leaves the requests in flight, and its channel is handed back
    /// with the error to send on it; nothing when it was not in flight.
    pub fn reject(&mut self, request_id: u16, error: Vec<u8>) -> (r: Option<
        (oneshot::Sender<Result<Vec<u8>, Error>>, Result<Vec<u8>, Error>),
    >)
        ensures
            final(self).next_id() == old(self).next_id(),
            final(self).in_flight() == old(self).in_flight().remove(request_id),
            !old(self).in_flight().contains_key(request_id) ==> r is None,
            old(self).in_flight().contains_key(request_id) ==> handed_back_err(
                r,
                old(self).in_flight()[request_id],
                error@,
            ),
    {
        match self.take(request_id) {
            Some(sender) => Some((sender, Err(Error::BridgeError(error)))),
            None => None,
        }
    }
}

} // verus!
