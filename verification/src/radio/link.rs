//! The bookkeeping of the serial link to the radio: each request goes out as
//! a raw message under a request identifier, and the parser kept under that
//! identifier turns the radio's reply into the response.
use crate::radio::raw::{RawRadioCommand, RawRadioMessage, RawRadioMessageView};
use crate::radio::{
    ok_reply, ok_reply_spec, parsed_response, parser_for, raw_request, RadioError, RadioErrorView, RadioRequest,
    RadioResponse, RadioResponseParser,
};
use std::collections::HashMap;
use vstd::prelude::*;

verus! {

broadcast use vstd::std_specs::hash::group_hash_axioms;

/// The parsers of the requests that wait for a reply, by request identifier.
pub struct ResponseParsers {
    parsers: HashMap<u16, RadioResponseParser>,
}

impl View for ResponseParsers {
    type V = Map<u16, RadioResponseParser>;

    closed spec fn view(&self) -> Map<u16, RadioResponseParser> {
        self.parsers@
    }
}

/// What a message from the radio comes to.
#[derive(Debug)]
pub enum MessageOutcome {
    /// The response to a request that waited for it.
    Response(RadioResponse),
    /// A successful reply to a request that does not wait.
    UnknownRequest(u16),
    /// A message that calls for nothing: a failure reply to a request that
    /// does not wait, or a received packet.
    Ignored,
    /// A request, which the radio does not send.
    Unexpected(RawRadioCommand),
}

/// The outcome of a reply with the given command and data, for a request
/// whose parser is `parser`.
pub open spec fn reply_outcome(
    parser: RadioResponseParser,
    command: RawRadioCommand,
    data: Seq<u8>,
    r: MessageOutcome,
) -> bool {
    r matches MessageOutcome::Response(response) && parsed_response(
        parser,
        if command == RawRadioCommand::OkReply {
            ok_reply_spec(data)
        } else {
            Err(RadioErrorView::RawError(data))
        },
        response,
    )
}

impl ResponseParsers {
    /// No request waits.
    pub fn new() -> (r: Self)
        ensures
            r@ == Map::<u16, RadioResponseParser>::empty(),
    {
        ResponseParsers { parsers: HashMap::new() }
    }

    /// Whether a request waits under `request_id`.
    pub fn is_waiting(&self, request_id: u16) -> (r: bool)
        ensures
            r == self@.contains_key(request_id),
    {
        self.parsers.contains_key(&request_id)
    }

    /// Starts `request` under `request_id` when no request waits under that
    /// identifier: keeps its parser and gives the raw message to send.
    /// Otherwise gives the request back and keeps nothing.
    pub fn start_request(&mut self, request_id: u16, request: RadioRequest) -> (r: Result<
        RawRadioMessage,
        RadioRequest,
    >)
        ensures
            old(self)@.contains_key(request_id) ==> {
                &&& r matches Err(q) && q@ == request@
                &&& final(self)@ == old(self)@
            },
            !old(self)@.contains_key(request_id) ==> {
                &&& r matches Ok(m) && m@ == (RawRadioMessageView {
                    command_id: raw_request(request@).0,
                    request_id,
                    data: raw_request(request@).1,
                })
                &&& final(self)@ == old(self)@.insert(request_id, parser_for(request@))
            },
    {
        if self.parsers.contains_key(&request_id) {
            return Err(request);
        }
        let (command_id, data, parser) = request.into_raw();
        self.parsers.insert(request_id, parser);
        Ok(RawRadioMessage { command_id, request_id, data })
    }

    /// Handles a message from the radio: a reply to a waiting request is
    /// parsed by that request's parser, which is then dropped; a successful
    /// reply to no waiting request is reported; failure replies to no
    /// waiting request and received packets call for nothing; anything else
    /// is unexpected.
    pub fn handle_message(&mut self, message: RawRadioMessage) -> (r: MessageOutcome)
        ensures
            match message.command_id {
                RawRadioCommand::OkReply | RawRadioCommand::ErrReply => {
                    &&& final(self)@ == old(self)@.remove(message.request_id)
                    &&& if old(self)@.contains_key(message.request_id) {
                        reply_outcome(old(self)@[message.request_id], message.command_id, message.data@, r)
                    } else if message.command_id == RawRadioCommand::OkReply {
                        r == MessageOutcome::UnknownRequest(message.request_id)
                    } else {
                        r == MessageOutcome::Ignored
                    }
                },
                RawRadioCommand::OnPacket => r == MessageOutcome::Ignored && final(self)@ == old(self)@,
                c => r == MessageOutcome::Unexpected(c) && final(self)@ == old(self)@,
            },
    {
        match message.command_id {
            RawRadioCommand::OkReply => match self.parsers.remove(&message.request_id) {
                Some(parser) => MessageOutcome::Response(parser.parse(ok_reply(message.data.as_slice()))),
                None => MessageOutcome::UnknownRequest(message.request_id),
            },
            RawRadioCommand::ErrReply => match self.parsers.remove(&message.request_id) {
                Some(parser) => MessageOutcome::Response(parser.parse(Err(RadioError::RawError(message.data)))),
                None => MessageOutcome::Ignored,
            },
            RawRadioCommand::OnPacket => MessageOutcome::Ignored,
            c => MessageOutcome::Unexpected(c),
        }
    }
}

/// A reply answers its request once: after a request is started under a
/// free identifier, its reply is parsed by that request's parser and the
/// identifier is free again.
pub proof fn lemma_start_then_reply(m: Map<u16, RadioResponseParser>, request_id: u16, request: RadioRequest)
    requires
        !m.contains_key(request_id),
    ensures
        m.insert(request_id, parser_for(request@)).remove(request_id) == m,
        m.insert(request_id, parser_for(request@))[request_id] == parser_for(request@),
{
    assert(m.insert(request_id, parser_for(request@)).remove(request_id) =~= m);
}

} // verus!
