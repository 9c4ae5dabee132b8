//! The MAC's state and its decisions on each input: what goes to the radio
//! for a data service action, and what a radio response, an MLME request or
//! an MCPS data request does to the PIB, the management entity and the data
//! service; and the requests that bring the MAC up. The task that reads the
//! inputs and performs the requests lives outside the library.
use crate::ieee802154::mac::data::{
    fresh_data_service, DataRequest, DataRequestView, DataService, DataServiceAction, DataServiceActionView,
    DataServiceView,
};
use crate::ieee802154::mac::devicequeue::frame_for;
use crate::ieee802154::mac::frame::{frame_bytes, frame_parse, specification_of, Frame, FrameType, FrameTypeView, FrameView};
use crate::ieee802154::mac::management::{frame_outcome, mlme_request_outcome, ManagementService};
use crate::ieee802154::pib::{is_fresh_pib, PIBView, PIB};
use crate::ieee802154::services::{mcps, mlme};
use crate::ieee802154::ExtendedAddress;
use crate::parse_serialize::SerializeError;
use crate::radio::raw::RawRadioParam;
use crate::radio::{RadioError, RadioParamType, RadioParamValue, RadioRequest, RadioRequestView, RadioResponse};
use crate::radio_bridge::service::{rx_mode_value, FromToRadioValue, RadioRxMode};
use crate::unique_key::UniqueKey;
use vstd::prelude::*;

verus! {

/// What a received packet decodes to: a frame when the bytes hold exactly
/// one.
pub open spec fn frame_decode(data: Seq<u8>) -> Result<FrameView, SerializeError> {
    match frame_parse(data) {
        Ok((f, n)) => if n == data.len() {
            Ok(f)
        } else {
            Err(SerializeError::DataLeft)
        },
        Err(e) => Err(e),
    }
}

/// The data request an MCPS-DATA.request becomes, under the given key.
pub open spec fn mcps_data_request(key: UniqueKey, request: mcps::DataRequest) -> DataRequestView {
    DataRequestView {
        key,
        destination: request.destination,
        source_mode: request.source_addressing_mode,
        acknowledge_request: request.ack_tx,
        indirect: request.indirect_tx,
        content: FrameTypeView::Data(request.msdu@),
    }
}

/// An MCPS-DATA.request is queued as asked: under its key, to its
/// destination, as a data frame of its payload, direct or indirect as
/// `indirect_tx` says, and the frame sent for it asks for an acknowledgement
/// (and waits for one) exactly when `ack_tx` is set.
pub proof fn lemma_data_request_as_asked(key: UniqueKey, request: mcps::DataRequest, pib: PIBView)
    ensures
        mcps_data_request(key, request).key == key,
        mcps_data_request(key, request).destination == request.destination,
        mcps_data_request(key, request).source_mode == request.source_addressing_mode,
        mcps_data_request(key, request).acknowledge_request == request.ack_tx,
        mcps_data_request(key, request).indirect == request.indirect_tx,
        frame_for(mcps_data_request(key, request), pib).1.acknowledge_request == request.ack_tx,
        frame_for(mcps_data_request(key, request), pib).0 is Some == request.ack_tx,
        frame_for(mcps_data_request(key, request), pib).1.destination == specification_of(request.destination),
        frame_for(mcps_data_request(key, request), pib).1.frame_type == FrameTypeView::Data(request.msdu@),
{
}

/// The state of the MAC: its PIB, its management entity and its data
/// service.
pub struct MacData {
    pub pib: PIB,
    pub management: ManagementService,
    pub data: DataService,
}

impl MacData {
    /// The invariant: the data service is well formed.
    pub open spec fn wf(&self) -> bool {
        self.data.wf()
    }

    /// A MAC for a radio with the given extended address, channel and
    /// maximum transmit power: a fresh PIB, no frames to send, no queues.
    pub fn new(extended_address: ExtendedAddress, current_channel: u16, max_tx_power: u16) -> (r: Self)
        ensures
            r.wf(),
            is_fresh_pib(r.pib@, extended_address, current_channel, max_tx_power),
            r.management@ == Seq::<FrameView>::empty(),
            r.data@ == fresh_data_service(),
    {
        let pib = PIB::new(extended_address, current_channel, max_tx_power);
        let management = ManagementService::new(&pib);
        let data = DataService::new();
        MacData { pib, management, data }
    }

    /// The radio request that performs a data service action: clearing the
    /// pending tables, or sending a frame's bytes under the action's key.
    /// A frame that cannot be encoded gives its error; the other actions
    /// need no radio request.
    pub fn radio_request_for(action: &DataServiceAction) -> (r: Option<Result<RadioRequest, SerializeError>>)
        ensures
            match action@ {
                DataServiceActionView::InitPendingTable(key) => r matches Some(
                    Ok(q),
                ) && q@ == RadioRequestView::InitPendingDataTable(key),
                DataServiceActionView::SendFrame(key, f) => match frame_bytes(f) {
                    Ok(b) => r matches Some(Ok(q)) && q@ == RadioRequestView::SendPacket(key, b),
                    Err(e) => r == Some(Err::<RadioRequest, SerializeError>(e)),
                },
                _ => r is None,
            },
    {
        match action {
            DataServiceAction::InitPendingTable(key) => Some(Ok(RadioRequest::InitPendingDataTable(*key))),
            DataServiceAction::SendFrame(key, frame) => match frame.serialize() {
                Ok(data) => Some(Ok(RadioRequest::SendPacket(*key, data))),
                Err(e) => Some(Err(e)),
            },
            _ => None,
        }
    }

    /// Hands a radio response to the service it concerns: the result of
    /// clearing the pending tables or of sending a frame goes to the data
    /// service; a received packet is decoded and handed to the management
    /// entity, then to the data service, and the management entity's
    /// indication is returned. A packet that does not decode gives its
    /// error and changes nothing; other responses change nothing.
    pub fn process_radio_response(&mut self, response: RadioResponse) -> (r: Result<
        Option<mlme::Indication>,
        SerializeError,
    >)
        requires
            old(self).wf(),
        ensures
            final(self).wf(),
            match response {
                RadioResponse::InitPendingDataTable(key, result) => {
                    &&& r == Ok::<Option<mlme::Indication>, SerializeError>(None)
                    &&& final(self).data@ == (DataServiceView {
                        pending_table: old(self).data@.pending_table.report_init_result(key, result is Ok),
                        ..old(self).data@
                    })
                    &&& final(self).pib == old(self).pib
                    &&& final(self).management@ == old(self).management@
                },
                RadioResponse::SendPacket(key, result) => {
                    &&& r == Ok::<Option<mlme::Indication>, SerializeError>(None)
                    &&& final(self).data@ == old(self).data@.send_result(key, result is Ok)
                    &&& final(self).pib == old(self).pib
                    &&& final(self).management@ == old(self).management@
                },
                RadioResponse::OnPacket(bytes) => match frame_decode(bytes@) {
                    Ok(f) => {
                        &&& r matches Ok(i) && frame_outcome(
                            old(self).management@,
                            old(self).pib@,
                            f,
                            final(self).management@,
                            final(self).pib@,
                            i,
                        )
                        &&& final(self).data@ == old(self).data@.process_frame(final(self).pib@, f)
                    },
                    Err(e) => {
                        &&& r == Err::<Option<mlme::Indication>, SerializeError>(e)
                        &&& final(self).data@ == old(self).data@
                        &&& final(self).pib == old(self).pib
                        &&& final(self).management@ == old(self).management@
                    },
                },
                _ => {
                    &&& r == Ok::<Option<mlme::Indication>, SerializeError>(None)
                    &&& final(self).data@ == old(self).data@
                    &&& final(self).pib == old(self).pib
                    &&& final(self).management@ == old(self).management@
                },
            },
    {
        match response {
            RadioResponse::InitPendingDataTable(key, result) => {
                self.data.process_init_pending_table_result(key, result.is_ok());
                Ok(None)
            },
            RadioResponse::SendPacket(key, result) => {
                self.data.process_send_result(key, result.is_ok());
                Ok(None)
            },
            RadioResponse::OnPacket(bytes) => {
                let frame = Frame::deserialize_complete(bytes.as_slice())?;
                let indication = self.management.process_frame(&mut self.pib, &frame);
                self.data.process_frame(&self.pib, &frame);
                Ok(indication)
            },
            _ => Ok(None),
        }
    }

    /// Hands an MLME request to the management entity, and gives its
    /// confirmation.
    pub fn process_mlme_request(&mut self, request: mlme::Request) -> (r: Option<mlme::Confirm>)
        requires
            old(self).wf(),
        ensures
            final(self).wf(),
            mlme_request_outcome(
                old(self).management@,
                old(self).pib@,
                old(self).data,
                request,
                final(self).management@,
                final(self).pib@,
                final(self).data,
                r,
            ),
    {
        self.management.process_mlme_request(&mut self.pib, &mut self.data, request)
    }

    /// Queues the MSDU of an MCPS-DATA.request as a data frame under `key`.
    pub fn process_mcps_data_request(&mut self, key: UniqueKey, request: mcps::DataRequest)
        requires
            old(self).wf(),
        ensures
            final(self).wf(),
            final(self).data@ == old(self).data@.insert(old(self).pib@, mcps_data_request(key, request)),
            final(self).pib == old(self).pib,
            final(self).management@ == old(self).management@,
    {
        let entry = DataRequest {
            key,
            destination: request.destination,
            source_mode: request.source_addressing_mode,
            acknowledge_request: request.ack_tx,
            indirect: request.indirect_tx,
            content: FrameType::Data(request.msdu),
        };
        self.data.insert(&self.pib, entry);
    }
}

/*=== Bringing the MAC up ===*/

/// The radio requests that bring the MAC up, in the order they are made:
/// read the extended address, the maximum transmit power and the channel;
/// set the receive mode; turn the radio on.
#[derive(Debug, Clone, Copy, PartialEq, Eq, Structural)]
pub enum StartupStage {
    LongAddress,
    TxPowerMax,
    Channel,
    RxMode,
    PowerOn,
}

/// The stage after `stage`; none after the last.
pub open spec fn next_stage(stage: StartupStage) -> Option<StartupStage> {
    match stage {
        StartupStage::LongAddress => Some(StartupStage::TxPowerMax),
        StartupStage::TxPowerMax => Some(StartupStage::Channel),
        StartupStage::Channel => Some(StartupStage::RxMode),
        StartupStage::RxMode => Some(StartupStage::PowerOn),
        StartupStage::PowerOn => None,
    }
}

/// The receive mode the MAC runs the radio in: addresses filtered, frames
/// acknowledged by the radio, no polling.
pub open spec fn startup_rx_mode() -> RadioRxMode {
    RadioRxMode { address_filter: true, autoack: true, poll_mode: false }
}

/// The request of a stage, under `key`.
pub open spec fn startup_request(stage: StartupStage, key: UniqueKey) -> RadioRequestView {
    match stage {
        StartupStage::LongAddress => RadioRequestView::GetParam(key, RawRadioParam::LongAddress, RadioParamType::U64),
        StartupStage::TxPowerMax => RadioRequestView::GetParam(key, RawRadioParam::TxPowerMax, RadioParamType::U16),
        StartupStage::Channel => RadioRequestView::GetParam(key, RawRadioParam::Channel, RadioParamType::U16),
        StartupStage::RxMode => RadioRequestView::SetParam(
            key,
            RawRadioParam::RxMode,
            RadioParamValue::U16(rx_mode_value(startup_rx_mode())),
        ),
        StartupStage::PowerOn => RadioRequestView::SetPower(key, true),
    }
}

/// Whether `response` answers the request of `stage` made under `key`: the
/// same key, on a response of the kind the request calls for.
pub open spec fn answers(stage: StartupStage, key: UniqueKey, response: RadioResponse) -> bool {
    match response {
        RadioResponse::GetParam(k, _, _) => k == key && (stage == StartupStage::LongAddress || stage
            == StartupStage::TxPowerMax || stage == StartupStage::Channel),
        RadioResponse::SetParam(k, _, _) => k == key && stage == StartupStage::RxMode,
        RadioResponse::SetPower(k, _, _) => k == key && stage == StartupStage::PowerOn,
        _ => false,
    }
}

/// What an answer to the request of `stage` gives: the value read (the
/// extended address, or a 16 bit value), nothing for the settings, or the
/// error; a value of the wrong width is an unexpected response size.
pub open spec fn stage_result(stage: StartupStage, response: RadioResponse) -> Result<u64, RadioError> {
    match response {
        RadioResponse::GetParam(_, _, Err(e)) => Err(e),
        RadioResponse::GetParam(_, _, Ok(v)) => match (stage, v) {
            (StartupStage::LongAddress, RadioParamValue::U64(x)) => Ok(x),
            (StartupStage::LongAddress, _) => Err(RadioError::UnexpectedResponseSize),
            (_, RadioParamValue::U16(x)) => Ok(x as u64),
            (_, _) => Err(RadioError::UnexpectedResponseSize),
        },
        RadioResponse::SetParam(_, _, Err(e)) => Err(e),
        RadioResponse::SetPower(_, _, Err(e)) => Err(e),
        _ => Ok(0),
    }
}

/// Bringing the MAC up: the stage reached, the key of its request, and the
/// values read so far.
#[derive(Debug)]
pub struct MacStartup {
    pub stage: StartupStage,
    pub key: UniqueKey,
    pub extended_address: u64,
    pub max_tx_power: u16,
    pub current_channel: u16,
}

/// What an answer to a startup request leads to.
pub enum StartupOutcome {
    /// The response answers another request: still waiting.
    Waiting(MacStartup),
    /// The next stage, and its request to make.
    Next(MacStartup, RadioRequest),
    /// The radio is up: the MAC, with the values read.
    Done(MacData),
    /// The request of this stage failed.
    Failed(StartupStage, RadioError),
}

/// The request of `stage` under `key`.
fn make_startup_request(stage: StartupStage, key: UniqueKey) -> (r: RadioRequest)
    ensures
        r@ == startup_request(stage, key),
{
    match stage {
        StartupStage::LongAddress => RadioRequest::GetParam(key, RawRadioParam::LongAddress, RadioParamType::U64),
        StartupStage::TxPowerMax => RadioRequest::GetParam(key, RawRadioParam::TxPowerMax, RadioParamType::U16),
        StartupStage::Channel => RadioRequest::GetParam(key, RawRadioParam::Channel, RadioParamType::U16),
        StartupStage::RxMode => {
            let mode = RadioRxMode { address_filter: true, autoack: true, poll_mode: false };
            // A receive mode always has a radio value.
            let value = match mode.to_radio_value() {
                Ok(v) => v,
                Err(_) => 0,
            };
            RadioRequest::SetParam(key, RawRadioParam::RxMode, RadioParamValue::U16(value))
        },
        StartupStage::PowerOn => RadioRequest::SetPower(key, true),
    }
}

impl MacStartup {
    /// The first stage, and its request under a new key.
    pub fn start() -> (r: (MacStartup, RadioRequest))
        ensures
            r.0.stage == StartupStage::LongAddress,
            r.1@ == startup_request(StartupStage::LongAddress, r.0.key),
    {
        let key = UniqueKey::new();
        let s = MacStartup {
            stage: StartupStage::LongAddress,
            key,
            extended_address: 0,
            max_tx_power: 0,
            current_channel: 0,
        };
        (s, make_startup_request(StartupStage::LongAddress, key))
    }

    /// Whether `response` answers the request in flight.
    fn is_answer(&self, response: &RadioResponse) -> (r: bool)
        ensures
            r == answers(self.stage, self.key, *response),
    {
        match response {
            RadioResponse::GetParam(k, _, _) => k.same(&self.key) && (self.stage == StartupStage::LongAddress
                || self.stage == StartupStage::TxPowerMax || self.stage == StartupStage::Channel),
            RadioResponse::SetParam(k, _, _) => k.same(&self.key) && self.stage == StartupStage::RxMode,
            RadioResponse::SetPower(k, _, _) => k.same(&self.key) && self.stage == StartupStage::PowerOn,
            _ => false,
        }
    }

    /// Handles a response from the radio: one that answers the request in
    /// flight moves to the next stage, records the value read, and gives
    /// the next request under a new key, or, after the last stage, the MAC
    /// with the values read; a failed answer fails the startup; any other
    /// response is not for the startup and changes nothing.
    pub fn on_response(self, response: RadioResponse) -> (r: StartupOutcome)
        ensures
            !answers(self.stage, self.key, response) ==> r == StartupOutcome::Waiting(self),
            answers(self.stage, self.key, response) ==> match stage_result(self.stage, response) {
                Err(e) => r == StartupOutcome::Failed(self.stage, e),
                Ok(v) => match next_stage(self.stage) {
                    Some(next) => r matches StartupOutcome::Next(s, q) && {
                        &&& s.stage == next
                        &&& q@ == startup_request(next, s.key)
                        &&& s.extended_address == if self.stage == StartupStage::LongAddress {
                            v
                        } else {
                            self.extended_address
                        }
                        &&& s.max_tx_power == if self.stage == StartupStage::TxPowerMax {
                            v as u16
                        } else {
                            self.max_tx_power
                        }
                        &&& s.current_channel == if self.stage == StartupStage::Channel {
                            v as u16
                        } else {
                            self.current_channel
                        }
                    },
                    None => r matches StartupOutcome::Done(mac) && {
                        &&& mac.wf()
                        &&& is_fresh_pib(
                            mac.pib@,
                            ExtendedAddress(self.extended_address),
                            self.current_channel,
                            self.max_tx_power,
                        )
                        &&& mac.management@ == Seq::<FrameView>::empty()
                        &&& mac.data@ == fresh_data_service()
                    },
                },
            },
    {
        if !self.is_answer(&response) {
            return StartupOutcome::Waiting(self);
        }
        let value: u64 = match response {
            RadioResponse::GetParam(_, _, Err(e)) => return StartupOutcome::Failed(self.stage, e),
            RadioResponse::GetParam(_, _, Ok(v)) => {
                let read = if self.stage == StartupStage::LongAddress {
                    v.into_u64()
                } else {
                    match v.into_u16() {
                        Ok(x) => Ok(x as u64),
                        Err(e) => Err(e),
                    }
                };
                match read {
                    Ok(x) => x,
                    Err(e) => return StartupOutcome::Failed(self.stage, e),
                }
            },
            RadioResponse::SetParam(_, _, Err(e)) => return StartupOutcome::Failed(self.stage, e),
            RadioResponse::SetPower(_, _, Err(e)) => return StartupOutcome::Failed(self.stage, e),
            _ => 0,
        };
        let mut s = self;
        let next = match s.stage {
            StartupStage::LongAddress => {
                s.extended_address = value;
                StartupStage::TxPowerMax
            },
            StartupStage::TxPowerMax => {
                s.max_tx_power = value as u16;
                StartupStage::Channel
            },
            StartupStage::Channel => {
                s.current_channel = value as u16;
                StartupStage::RxMode
            },
            StartupStage::RxMode => StartupStage::PowerOn,
            StartupStage::PowerOn => {
                return StartupOutcome::Done(
                    MacData::new(ExtendedAddress(s.extended_address), s.current_channel, s.max_tx_power),
                );
            },
        };
        let key = UniqueKey::new();
        s.stage = next;
        s.key = key;
        StartupOutcome::Next(s, make_startup_request(next, key))
    }
}

} // verus!
