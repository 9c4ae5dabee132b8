//! The queue of frames for one destination, as a state machine: the caller
//! polls it for the next action, and reports what happened to the frames it
//! sent. Timers are the caller's: it tells the queue which have run out.
use crate::ieee802154::mac::data::{DataRequest, DataRequestView};
use crate::ieee802154::mac::frame::{
    specification_of, AddressSpecification, AddressingMode, Frame, FrameView, FullAddress,
};
use crate::ieee802154::pib::{PIBView, PIB};
use crate::unique_key::UniqueKey;
use vstd::prelude::*;

verus! {

/// Why a frame could not be delivered.
#[derive(Debug, Clone, Copy, PartialEq, Eq, Structural)]
pub enum DeviceQueueError {
    /// The frame was not polled within the time allocated.
    TransactionExpired,
    /// Sending failed after several tries.
    SendFailure,
    /// No acknowledgement came after several tries.
    NoAck,
}

/// Where the front frame of the queue stands.
#[derive(Debug, PartialEq, Eq)]
pub enum DeviceQueueState {
    /// Ready to send the next frame; `datarequest` when the destination asked
    /// for its data.
    Idle { datarequest: bool },
    /// A frame was handed out to be sent; waiting for the result.
    Sending { send_key: UniqueKey, ack_requested: Option<u8> },
    /// Waiting for an acknowledgement.
    WaitingForAck { ack_requested: u8 },
    /// The front frame has its result; it is reported next.
    HaveResult { result: Result<Vec<u8>, DeviceQueueError> },
}

/// A queue state, with result payloads as sequences.
pub enum DeviceQueueStateView {
    Idle { datarequest: bool },
    Sending { send_key: UniqueKey, ack_requested: Option<u8> },
    WaitingForAck { ack_requested: u8 },
    HaveResult { result: Result<Seq<u8>, DeviceQueueError> },
}

impl View for DeviceQueueState {
    type V = DeviceQueueStateView;

    open spec fn view(&self) -> DeviceQueueStateView {
        match self {
            DeviceQueueState::Idle { datarequest } => DeviceQueueStateView::Idle { datarequest: *datarequest },
            DeviceQueueState::Sending { send_key, ack_requested } => DeviceQueueStateView::Sending {
                send_key: *send_key,
                ack_requested: *ack_requested,
            },
            DeviceQueueState::WaitingForAck { ack_requested } => DeviceQueueStateView::WaitingForAck {
                ack_requested: *ack_requested,
            },
            DeviceQueueState::HaveResult { result } => DeviceQueueStateView::HaveResult {
                result: match result {
                    Ok(v) => Ok(v@),
                    Err(e) => Err(*e),
                },
            },
        }
    }
}

/// What the queue asks of its caller.
#[derive(Debug, PartialEq, Eq)]
pub enum DeviceQueueAction {
    /// The queue is empty and can be discarded.
    Empty(),
    /// The pending bit of the destination should be set or cleared.
    SetPending(bool),
    /// The frame should be sent; its result is reported with the key.
    SendFrame(UniqueKey, Frame),
    /// The request with this key is done, with this result.
    ReportResult(UniqueKey, Result<Vec<u8>, DeviceQueueError>),
}

/// An action, with frames and payloads viewed.
pub enum DeviceQueueActionView {
    Empty,
    SetPending(bool),
    SendFrame(UniqueKey, FrameView),
    ReportResult(UniqueKey, Result<Seq<u8>, DeviceQueueError>),
}

impl View for DeviceQueueAction {
    type V = DeviceQueueActionView;

    open spec fn view(&self) -> DeviceQueueActionView {
        match self {
            DeviceQueueAction::Empty() => DeviceQueueActionView::Empty,
            DeviceQueueAction::SetPending(b) => DeviceQueueActionView::SetPending(*b),
            DeviceQueueAction::SendFrame(k, f) => DeviceQueueActionView::SendFrame(*k, f@),
            DeviceQueueAction::ReportResult(k, r) => DeviceQueueActionView::ReportResult(
                *k,
                match r {
                    Ok(v) => Ok(v@),
                    Err(e) => Err(*e),
                },
            ),
        }
    }
}

/// A queued request and the tries left.
struct DeviceQueueEntry {
    data: DataRequest,
    retries_left: usize,
}

/// A queued request, viewed.
pub struct EntryView {
    pub data: DataRequestView,
    pub retries_left: usize,
}

/// The state of a queue: where the front frame stands, the pending bit last
/// reported, and the requests in the order they came.
pub struct DeviceQueueView {
    pub state: DeviceQueueStateView,
    pub last_pending_reported: Option<bool>,
    pub entries: Seq<EntryView>,
}

/// The frames for one destination.
pub struct DeviceQueue {
    state: DeviceQueueState,
    last_pending_reported: Option<bool>,
    entries: Vec<DeviceQueueEntry>,
}

impl View for DeviceQueue {
    type V = DeviceQueueView;

    closed spec fn view(&self) -> DeviceQueueView {
        DeviceQueueView {
            state: self.state@,
            last_pending_reported: self.last_pending_reported,
            entries: self.entries@.map_values(|e: DeviceQueueEntry| EntryView { data: e.data@, retries_left: e.retries_left }),
        }
    }
}

/*=== The queue's behaviour, as functions on its state ===*/

/// The keys of the queued requests.
pub open spec fn entry_keys(entries: Seq<EntryView>) -> Seq<UniqueKey> {
    entries.map_values(|e: EntryView| e.data.key)
}

/// Whether a request with `key` is queued.
pub open spec fn contains_key(entries: Seq<EntryView>, key: UniqueKey) -> bool {
    exists|i: int| 0 <= i < entries.len() && entries[i].data.key == key
}

/// No key is queued twice.
pub open spec fn keys_distinct(entries: Seq<EntryView>) -> bool {
    forall|i: int, j: int| 0 <= i < j < entries.len() ==> entries[i].data.key != entries[j].data.key
}

/// Whether the destination should be told that data is pending: the front
/// request waits to be asked for.
pub open spec fn should_be_pending(entries: Seq<EntryView>) -> bool {
    entries.len() > 0 && entries[0].data.indirect
}

/// The source address of a frame sent with addressing mode `mode`.
pub open spec fn frame_source(mode: AddressingMode, pib: PIBView) -> Option<FullAddress> {
    match mode {
        AddressingMode::NotPresent => None,
        AddressingMode::Reserved => None,
        AddressingMode::Short => Some(
            FullAddress {
                pan_id: pib.mac_pan_id,
                address: if pib.mac_short_address != crate::ieee802154::ShortAddress(0xFFFE) {
                    crate::ieee802154::mac::frame::Address::Short(pib.mac_short_address)
                } else {
                    crate::ieee802154::mac::frame::Address::Extended(pib.mac_extended_address)
                },
            },
        ),
        AddressingMode::Extended => Some(
            FullAddress {
                pan_id: pib.mac_pan_id,
                address: crate::ieee802154::mac::frame::Address::Extended(pib.mac_extended_address),
            },
        ),
    }
}

/// The frame for a request, with the next data sequence number, and the
/// sequence number the acknowledgement will carry if one is asked for.
pub open spec fn frame_for(request: DataRequestView, pib: PIBView) -> (Option<u8>, FrameView) {
    let sequence_nr = pib.mac_dsn;
    (
        if request.acknowledge_request {
            Some(sequence_nr)
        } else {
            None
        },
        FrameView {
            frame_pending: false,
            acknowledge_request: request.acknowledge_request,
            sequence_number: Some(sequence_nr),
            destination: specification_of(request.destination),
            source: specification_of(frame_source(request.source_mode, pib)),
            frame_type: request.content,
        },
    )
}

/// The PIB after a data sequence number was taken.
pub open spec fn dsn_taken(pib: PIBView) -> PIBView {
    PIBView { mac_dsn: ((pib.mac_dsn + 1) % 256) as u8, ..pib }
}

/// The queue with a new state.
pub open spec fn with_state(q: DeviceQueueView, state: DeviceQueueStateView) -> DeviceQueueView {
    DeviceQueueView { state, ..q }
}

/// After the front request was handled in the state machine: a request
/// whose transaction time ran out (the first one, at `first_expired`) is
/// dropped and reported; otherwise nothing is to be done yet.
pub open spec fn poll_timeouts(q: DeviceQueueView, pib: PIBView, first_expired: Option<usize>) -> (
    DeviceQueueView,
    PIBView,
    Option<DeviceQueueActionView>,
) {
    match first_expired {
        Some(i) => if i < q.entries.len() {
            (
                DeviceQueueView {
                    state: if i == 0 {
                        DeviceQueueStateView::Idle { datarequest: false }
                    } else {
                        q.state
                    },
                    last_pending_reported: q.last_pending_reported,
                    entries: q.entries.remove(i as int),
                },
                pib,
                Some(
                    DeviceQueueActionView::ReportResult(
                        q.entries[i as int].data.key,
                        Err(DeviceQueueError::TransactionExpired),
                    ),
                ),
            )
        } else {
            (q, pib, None)
        },
        None => (q, pib, None),
    }
}

/// Polling the queue: first the pending bit, if it changed; then an empty
/// queue asks to be discarded; else the front request moves on by the state
/// (sent when direct or asked for, retried or failed when its acknowledgement
/// timer ran out, reported when it has its result); then expired requests are
/// dropped. `None` is returned while there is nothing to do. A frame handed
/// out is sent under `fresh_key`.
pub open spec fn poll_spec(
    q: DeviceQueueView,
    pib: PIBView,
    ack_timeout_expired: bool,
    first_expired: Option<usize>,
    fresh_key: UniqueKey,
) -> (DeviceQueueView, PIBView, Option<DeviceQueueActionView>) {
    let should = should_be_pending(q.entries);
    if q.last_pending_reported != Some(should) {
        (
            DeviceQueueView { last_pending_reported: Some(should), ..q },
            pib,
            Some(DeviceQueueActionView::SetPending(should)),
        )
    } else if q.entries.len() == 0 {
        (with_state(q, DeviceQueueStateView::Idle { datarequest: false }), pib, Some(DeviceQueueActionView::Empty))
    } else {
        let front = q.entries[0];
        let idle = DeviceQueueStateView::Idle { datarequest: false };
        match q.state {
            DeviceQueueStateView::Idle { datarequest } => if !front.data.indirect || datarequest {
                let (ack_requested, frame) = frame_for(front.data, pib);
                (
                    with_state(q, DeviceQueueStateView::Sending { send_key: fresh_key, ack_requested }),
                    dsn_taken(pib),
                    Some(DeviceQueueActionView::SendFrame(fresh_key, frame)),
                )
            } else {
                poll_timeouts(with_state(q, idle), pib, first_expired)
            },
            DeviceQueueStateView::WaitingForAck { ack_requested } => if ack_timeout_expired {
                if front.data.indirect {
                    poll_timeouts(with_state(q, idle), pib, first_expired)
                } else if front.retries_left > 0 {
                    let retried = EntryView { data: front.data, retries_left: (front.retries_left - 1) as usize };
                    poll_timeouts(
                        DeviceQueueView {
                            state: idle,
                            last_pending_reported: q.last_pending_reported,
                            entries: q.entries.update(0, retried),
                        },
                        pib,
                        first_expired,
                    )
                } else {
                    (
                        DeviceQueueView {
                            state: idle,
                            last_pending_reported: q.last_pending_reported,
                            entries: q.entries.drop_first(),
                        },
                        pib,
                        Some(DeviceQueueActionView::ReportResult(front.data.key, Err(DeviceQueueError::NoAck))),
                    )
                }
            } else {
                poll_timeouts(q, pib, first_expired)
            },
            DeviceQueueStateView::HaveResult { result } => (
                DeviceQueueView {
                    state: idle,
                    last_pending_reported: q.last_pending_reported,
                    entries: q.entries.drop_first(),
                },
                pib,
                Some(DeviceQueueActionView::ReportResult(front.data.key, result)),
            ),
            DeviceQueueStateView::Sending { .. } => poll_timeouts(q, pib, first_expired),
        }
    }
}

/// Reporting the send result of the frame sent under `key`: success gives
/// the front request its (empty) result; a failure sends an indirect request
/// back to waiting, retries a direct one while tries are left, and fails it
/// after. Results for other keys are ignored.
pub open spec fn send_result_spec(q: DeviceQueueView, key: UniqueKey, success: bool) -> DeviceQueueView {
    let idle = DeviceQueueStateView::Idle { datarequest: false };
    match q.state {
        DeviceQueueStateView::Sending { send_key, .. } => if send_key == key {
            if success {
                with_state(q, DeviceQueueStateView::HaveResult { result: Ok(Seq::empty()) })
            } else if q.entries.len() > 0 {
                let front = q.entries[0];
                if front.data.indirect {
                    with_state(q, idle)
                } else if front.retries_left > 0 {
                    DeviceQueueView {
                        state: idle,
                        last_pending_reported: q.last_pending_reported,
                        entries: q.entries.update(
                            0,
                            EntryView { data: front.data, retries_left: (front.retries_left - 1) as usize },
                        ),
                    }
                } else {
                    with_state(q, DeviceQueueStateView::HaveResult { result: Err(DeviceQueueError::SendFailure) })
                }
            } else {
                with_state(q, idle)
            }
        } else {
            q
        },
        _ => q,
    }
}

/// Reporting an acknowledgement with sequence number `seq_nr`: it gives the
/// awaited frame its result (the acknowledgement's payload); while the frame
/// is still being sent, it clears the acknowledgement being waited for.
pub open spec fn acknowledge_spec(q: DeviceQueueView, seq_nr: Option<u8>, payload: Seq<u8>) -> DeviceQueueView {
    match q.state {
        DeviceQueueStateView::WaitingForAck { ack_requested } => if seq_nr == Some(ack_requested) {
            with_state(q, DeviceQueueStateView::HaveResult { result: Ok(payload) })
        } else {
            q
        },
        DeviceQueueStateView::Sending { send_key, ack_requested } => if ack_requested == seq_nr {
            with_state(q, DeviceQueueStateView::Sending { send_key, ack_requested: None })
        } else {
            q
        },
        _ => q,
    }
}

/// A data request from the destination lets an idle queue send an indirect
/// frame.
pub open spec fn datarequest_spec(q: DeviceQueueView) -> DeviceQueueView {
    match q.state {
        DeviceQueueStateView::Idle { .. } => with_state(q, DeviceQueueStateView::Idle { datarequest: true }),
        _ => q,
    }
}

/// Inserting a request: refused when its key is queued already.
pub open spec fn insert_spec(q: DeviceQueueView, pib: PIBView, entry: DataRequestView) -> (DeviceQueueView, bool) {
    if contains_key(q.entries, entry.key) {
        (q, false)
    } else {
        (
            DeviceQueueView {
                entries: q.entries.push(EntryView { data: entry, retries_left: pib.mac_max_frame_retries as usize }),
                ..q
            },
            true,
        )
    }
}

/*=== Laws ===*/

/// A failed send of an indirect frame keeps the request at the front of the
/// queue, idle until the destination asks for its data again: polling before
/// then reports no result for it (while no request expires), and polling
/// after the next data request sends its frame again.
pub proof fn lemma_indirect_send_failure_waits(
    q: DeviceQueueView,
    pib: PIBView,
    key: UniqueKey,
    ack_timeout_expired: bool,
    first_expired: Option<usize>,
    fresh_key: UniqueKey,
)
    requires
        q.state matches DeviceQueueStateView::Sending { send_key, .. } && send_key == key,
        q.entries.len() > 0,
        q.entries[0].data.indirect,
    ensures
        send_result_spec(q, key, false).entries == q.entries,
        send_result_spec(q, key, false).last_pending_reported == q.last_pending_reported,
        send_result_spec(q, key, false).state == (DeviceQueueStateView::Idle { datarequest: false }),
        !(poll_spec(send_result_spec(q, key, false), pib, ack_timeout_expired, None, fresh_key).2 matches Some(
            DeviceQueueActionView::ReportResult(_, _),
        )),
        q.last_pending_reported == Some(should_be_pending(q.entries)) ==> poll_spec(
            datarequest_spec(send_result_spec(q, key, false)),
            pib,
            ack_timeout_expired,
            first_expired,
            fresh_key,
        ).2 == Some(DeviceQueueActionView::SendFrame(fresh_key, frame_for(q.entries[0].data, pib).1)),
{
}

/// A failed send of a direct frame is tried again while retries are left,
/// one retry fewer, and fails the request with `SendFailure` after.
pub proof fn lemma_direct_send_failure_retries(q: DeviceQueueView, key: UniqueKey)
    requires
        q.state matches DeviceQueueStateView::Sending { send_key, .. } && send_key == key,
        q.entries.len() > 0,
        !q.entries[0].data.indirect,
    ensures
        q.entries[0].retries_left > 0 ==> {
            &&& send_result_spec(q, key, false).state == (DeviceQueueStateView::Idle { datarequest: false })
            &&& send_result_spec(q, key, false).entries.len() == q.entries.len()
            &&& send_result_spec(q, key, false).entries[0].data == q.entries[0].data
            &&& send_result_spec(q, key, false).entries[0].retries_left + 1 == q.entries[0].retries_left
            &&& send_result_spec(q, key, false).entries.drop_first() == q.entries.drop_first()
        },
        q.entries[0].retries_left == 0 ==> send_result_spec(q, key, false) == with_state(
            q,
            DeviceQueueStateView::HaveResult { result: Err(DeviceQueueError::SendFailure) },
        ),
{
    let r = send_result_spec(q, key, false);
    if q.entries[0].retries_left > 0 {
        assert(r.entries.drop_first() =~= q.entries.drop_first());
    }
}

/// Every operation keeps the queued keys distinct.
pub proof fn lemma_keys_stay_distinct(
    q: DeviceQueueView,
    pib: PIBView,
    entry: DataRequestView,
    ack_timeout_expired: bool,
    first_expired: Option<usize>,
    fresh_key: UniqueKey,
    key: UniqueKey,
    success: bool,
    seq_nr: Option<u8>,
    payload: Seq<u8>,
)
    requires
        keys_distinct(q.entries),
    ensures
        keys_distinct(insert_spec(q, pib, entry).0.entries),
        keys_distinct(poll_spec(q, pib, ack_timeout_expired, first_expired, fresh_key).0.entries),
        keys_distinct(send_result_spec(q, key, success).entries),
        keys_distinct(acknowledge_spec(q, seq_nr, payload).entries),
        keys_distinct(datarequest_spec(q).entries),
{
    let e = q.entries;
    if !contains_key(e, entry.key) {
        let n = e.push(EntryView { data: entry, retries_left: pib.mac_max_frame_retries as usize });
        assert forall|i: int, j: int| 0 <= i < j < n.len() implies n[i].data.key != n[j].data.key by {
            if j == e.len() {
                assert(!(0 <= i < e.len() && e[i].data.key == entry.key));
            }
        }
    }
    if e.len() > 0 {
        let d = e.drop_first();
        assert forall|i: int, j: int| 0 <= i < j < d.len() implies d[i].data.key != d[j].data.key by {
            assert(d[i] == e[i + 1] && d[j] == e[j + 1]);
        }
    }
    if let Some(i) = first_expired {
        if i < e.len() {
            let r = e.remove(i as int);
            assert forall|a: int, b: int| 0 <= a < b < r.len() implies r[a].data.key != r[b].data.key by {
                let a2 = if a < i { a } else { a + 1 };
                let b2 = if b < i { b } else { b + 1 };
                assert(r[a] == e[a2] && r[b] == e[b2]);
            }
        }
    }
}

/// Removing the request at `i` takes its key out of a queue whose keys are
/// distinct.
proof fn lemma_remove_takes_key(e: Seq<EntryView>, i: int)
    requires
        keys_distinct(e),
        0 <= i < e.len(),
    ensures
        contains_key(e, e[i].data.key),
        !contains_key(e.remove(i), e[i].data.key),
        e.remove(i).len() + 1 == e.len(),
{
    let key = e[i].data.key;
    let r = e.remove(i);
    if contains_key(r, key) {
        let j = choose|j: int| 0 <= j < r.len() && r[j].data.key == key;
        if j < i {
            assert(r[j] == e[j]);
        } else {
            assert(r[j] == e[j + 1]);
        }
    }
}

/// What `poll_timeouts` reports leaves the queue.
proof fn lemma_timeout_report_leaves(q: DeviceQueueView, pib: PIBView, first_expired: Option<usize>)
    requires
        keys_distinct(q.entries),
        poll_timeouts(q, pib, first_expired).2 matches Some(DeviceQueueActionView::ReportResult(_, _)),
    ensures
        ({
            let (q2, _, action) = poll_timeouts(q, pib, first_expired);
            let key = action->Some_0->ReportResult_0;
            &&& contains_key(q.entries, key)
            &&& !contains_key(q2.entries, key)
            &&& q2.entries.len() + 1 == q.entries.len()
        }),
{
    lemma_remove_takes_key(q.entries, first_expired->Some_0 as int);
}

/// A result is reported for a request that was queued, and the request
/// leaves the queue.
pub proof fn lemma_reported_request_leaves(
    q: DeviceQueueView,
    pib: PIBView,
    ack_timeout_expired: bool,
    first_expired: Option<usize>,
    fresh_key: UniqueKey,
)
    requires
        keys_distinct(q.entries),
        poll_spec(q, pib, ack_timeout_expired, first_expired, fresh_key).2 matches Some(
            DeviceQueueActionView::ReportResult(_, _),
        ),
    ensures
        ({
            let (q2, _, action) = poll_spec(q, pib, ack_timeout_expired, first_expired, fresh_key);
            let key = action->Some_0->ReportResult_0;
            &&& contains_key(q.entries, key)
            &&& !contains_key(q2.entries, key)
            &&& q2.entries.len() + 1 == q.entries.len()
        }),
{
    let e = q.entries;
    let idle = DeviceQueueStateView::Idle { datarequest: false };
    if q.last_pending_reported == Some(should_be_pending(e)) && e.len() > 0 {
        let front = e[0];
        match q.state {
            DeviceQueueStateView::Idle { datarequest } => {
                lemma_timeout_report_leaves(with_state(q, idle), pib, first_expired);
            },
            DeviceQueueStateView::WaitingForAck { .. } => {
                if ack_timeout_expired {
                    if front.data.indirect {
                        lemma_timeout_report_leaves(with_state(q, idle), pib, first_expired);
                    } else if front.retries_left > 0 {
                        let retried = EntryView { data: front.data, retries_left: (front.retries_left - 1) as usize };
                        let u = e.update(0, retried);
                        assert forall|a: int, b: int| 0 <= a < b < u.len() implies u[a].data.key != u[b].data.key by {
                            assert(u[a].data.key == e[a].data.key && u[b].data.key == e[b].data.key);
                        }
                        let q1 = DeviceQueueView { state: idle, last_pending_reported: q.last_pending_reported, entries: u };
                        lemma_timeout_report_leaves(q1, pib, first_expired);
                        if let Some(i) = first_expired {
                            if i < u.len() {
                                assert(u[i as int].data.key == e[i as int].data.key);
                                assert(contains_key(e, e[i as int].data.key));
                            }
                        }
                    } else {
                        lemma_remove_takes_key(e, 0);
                        assert(e.remove(0) =~= e.drop_first());
                    }
                } else {
                    lemma_timeout_report_leaves(q, pib, first_expired);
                }
            },
            DeviceQueueStateView::HaveResult { .. } => {
                lemma_remove_takes_key(e, 0);
                assert(e.remove(0) =~= e.drop_first());
            },
            DeviceQueueStateView::Sending { .. } => {
                lemma_timeout_report_leaves(q, pib, first_expired);
            },
        }
    }
}

/// Whether the pending bit last reported is the one the queue calls for.
pub open spec fn settled(q: DeviceQueueView) -> bool {
    q.last_pending_reported == Some(should_be_pending(q.entries))
}

/// Whether `i` is the position of the first request whose key is in
/// `expired`.
pub open spec fn is_first_expired(entries: Seq<EntryView>, expired: Seq<UniqueKey>, i: int) -> bool {
    &&& 0 <= i < entries.len()
    &&& expired.contains(entries[i].data.key)
    &&& forall|j: int| 0 <= j < i ==> !expired.contains(#[trigger] entries[j].data.key)
}

/// The position of the first request whose key is in `expired`, if any.
pub open spec fn first_expired_spec(entries: Seq<EntryView>, expired: Seq<UniqueKey>) -> Option<usize> {
    if exists|i: int| is_first_expired(entries, expired, i) {
        Some((choose|i: int| is_first_expired(entries, expired, i)) as usize)
    } else {
        None
    }
}

/// Polling without handing out a frame does not depend on the key a frame
/// would be sent under; a quiet poll finds and leaves the pending bit
/// settled and the PIB as it was; a poll that reports the pending bit
/// settles it.
pub proof fn lemma_poll_outcomes(
    q: DeviceQueueView,
    pib: PIBView,
    ack_timeout_expired: bool,
    first_expired: Option<usize>,
    k1: UniqueKey,
    k2: UniqueKey,
)
    ensures
        ({
            let (q1, p1, a1) = poll_spec(q, pib, ack_timeout_expired, first_expired, k1);
            &&& !(a1 matches Some(DeviceQueueActionView::SendFrame(_, _))) ==> poll_spec(
                q,
                pib,
                ack_timeout_expired,
                first_expired,
                k2,
            ) == (q1, p1, a1)
            &&& a1 is None ==> settled(q) && settled(q1) && p1 == pib
            &&& a1 matches Some(DeviceQueueActionView::SetPending(_)) ==> !settled(q) && settled(q1) && p1 == pib
        }),
{
    let e = q.entries;
    if settled(q) && e.len() > 0 {
        match q.state {
            DeviceQueueStateView::WaitingForAck { .. } => {
                if ack_timeout_expired && !e[0].data.indirect && e[0].retries_left > 0 {
                    let retried = EntryView { data: e[0].data, retries_left: (e[0].retries_left - 1) as usize };
                    assert(should_be_pending(e.update(0, retried)) == should_be_pending(e));
                }
            },
            _ => {},
        }
    }
}

/*=== The queue ===*/

/// Whether `key` is in `keys`.
fn key_listed(key: &UniqueKey, keys: &Vec<UniqueKey>) -> (r: bool)
    ensures
        r == keys@.contains(*key),
{
    let mut i: usize = 0;
    while i < keys.len()
        invariant
            i <= keys@.len(),
            forall|j: int| 0 <= j < i ==> keys@[j] != *key,
        decreases keys@.len() - i,
    {
        if keys[i].same(key) {
            assert(keys@[i as int] == *key);
            return true;
        }
        i = i + 1;
    }
    false
}

/// Whether two optional sequence numbers are equal.
fn same_sequence_number(a: Option<u8>, b: Option<u8>) -> (r: bool)
    ensures
        r == (a == b),
{
    match (a, b) {
        (None, None) => true,
        (Some(x), Some(y)) => x == y,
        _ => false,
    }
}

impl DeviceQueue {
    /// Every key is queued at most once.
    pub open spec fn wf(&self) -> bool {
        keys_distinct(self@.entries)
    }

    /// An empty, idle queue that has not reported a pending bit yet.
    pub fn new() -> (r: Self)
        ensures
            r.wf(),
            r@.state == (DeviceQueueStateView::Idle { datarequest: false }),
            r@.last_pending_reported is None,
            r@.entries.len() == 0,
    {
        let r = Self { state: DeviceQueueState::Idle { datarequest: false }, last_pending_reported: None, entries: Vec::new() };
        assert(r@.entries =~= Seq::<EntryView>::empty());
        r
    }

    /// Whether a request with `key` is queued.
    fn contains(&self, key: UniqueKey) -> (r: bool)
        ensures
            r == contains_key(self@.entries, key),
    {
        let mut i: usize = 0;
        while i < self.entries.len()
            invariant
                i <= self.entries@.len(),
                forall|j: int| 0 <= j < i ==> self@.entries[j].data.key != key,
            decreases self.entries@.len() - i,
        {
            if self.entries[i].data.key.same(&key) {
                assert(self@.entries[i as int].data.key == key);
                return true;
            }
            i = i + 1;
        }
        false
    }

    /// The position of the first request whose key is in `expired`: the
    /// first whose transaction time ran out.
    pub fn first_expired(&self, expired: &Vec<UniqueKey>) -> (r: Option<usize>)
        ensures
            r == first_expired_spec(self@.entries, expired@),
    {
        let mut i: usize = 0;
        while i < self.entries.len()
            invariant
                i <= self.entries@.len(),
                forall|j: int| 0 <= j < i ==> !expired@.contains(#[trigger] self@.entries[j].data.key),
            decreases self.entries@.len() - i,
        {
            if key_listed(&self.entries[i].data.key, expired) {
                proof {
                    let e = self@.entries;
                    assert(is_first_expired(e, expired@, i as int));
                    let c = choose|c: int| is_first_expired(e, expired@, c);
                    if c < i {
                        assert(!expired@.contains(e[c].data.key));
                    } else if c > i {
                        assert(!expired@.contains(e[i as int].data.key));
                    }
                }
                return Some(i);
            }
            i = i + 1;
        }
        None
    }

    /// Queues `entry` with the PIB's number of tries; refused, returning
    /// `false`, when its key is queued already.
    pub fn insert(&mut self, pib: &PIB, entry: DataRequest) -> (r: bool)
        requires
            old(self).wf(),
        ensures
            final(self).wf(),
            (final(self)@, r) == insert_spec(old(self)@, pib@, entry@),
    {
        proof {
            lemma_keys_stay_distinct(self@, pib@, entry@, false, None, entry.key, entry.key, false, None, Seq::empty());
        }
        if self.contains(entry.key) {
            return false;
        }
        self.entries.push(DeviceQueueEntry { data: entry, retries_left: pib.mac_max_frame_retries as usize });
        assert(self@.entries =~= insert_spec(old(self)@, pib@, entry@).0.entries);
        true
    }

    /// The destination asked for its data.
    pub fn process_datarequest(&mut self)
        requires
            old(self).wf(),
        ensures
            final(self).wf(),
            final(self)@ == datarequest_spec(old(self)@),
    {
        match self.state {
            DeviceQueueState::Idle { .. } => {
                self.state = DeviceQueueState::Idle { datarequest: true };
            },
            _ => {},
        }
    }

    /// The frame for `request`, taking the next data sequence number.
    fn create_frame(request: &DataRequest, pib: &mut PIB) -> (r: (Option<u8>, Frame))
        ensures
            (r.0, r.1@) == frame_for(request@, old(pib)@),
            final(pib)@ == dsn_taken(old(pib)@),
    {
        let source = match request.source_mode {
            AddressingMode::NotPresent => None,
            AddressingMode::Reserved => None,
            AddressingMode::Short => Some(pib.get_full_short_address()),
            AddressingMode::Extended => Some(pib.get_full_extended_address()),
        };
        let sequence_nr = pib.next_data_sequence_nr();
        let frame = Frame {
            frame_pending: false,
            acknowledge_request: request.acknowledge_request,
            sequence_number: Some(sequence_nr),
            destination: AddressSpecification::from(request.destination),
            source: AddressSpecification::from(source),
            frame_type: request.content.clone(),
        };
        let ack_request = if request.acknowledge_request {
            Some(sequence_nr)
        } else {
            None
        };
        (ack_request, frame)
    }

    /// Takes one try from the front request.
    fn use_retry(&mut self)
        requires
            old(self).wf(),
            old(self)@.entries.len() > 0,
            old(self)@.entries[0].retries_left > 0,
        ensures
            final(self).wf(),
            final(self)@ == (DeviceQueueView {
                entries: old(self)@.entries.update(
                    0,
                    EntryView {
                        data: old(self)@.entries[0].data,
                        retries_left: (old(self)@.entries[0].retries_left - 1) as usize,
                    },
                ),
                ..old(self)@
            }),
    {
        let mut front = self.entries.remove(0);
        front.retries_left = front.retries_left - 1;
        self.entries.insert(0, front);
        proof {
            let e = old(self)@.entries;
            let u = e.update(0, EntryView { data: e[0].data, retries_left: (e[0].retries_left - 1) as usize });
            assert(self@.entries =~= u);
            assert forall|i: int, j: int| 0 <= i < j < u.len() implies u[i].data.key != u[j].data.key by {
                assert(u[i].data.key == e[i].data.key && u[j].data.key == e[j].data.key);
            }
        }
    }

    /// Reports the send result of the frame handed out under `key`.
    pub fn process_send_result(&mut self, key: UniqueKey, success: bool)
        requires
            old(self).wf(),
        ensures
            final(self).wf(),
            final(self)@ == send_result_spec(old(self)@, key, success),
    {
        let matches_key = match &self.state {
            DeviceQueueState::Sending { send_key, .. } => send_key.same(&key),
            _ => false,
        };
        if matches_key {
            if success {
                self.state = DeviceQueueState::HaveResult { result: Ok(Vec::new()) };
                assert(self@.state == (DeviceQueueStateView::HaveResult { result: Ok(Seq::<u8>::empty()) }));
            } else if self.entries.len() > 0 {
                if self.entries[0].data.indirect {
                    self.state = DeviceQueueState::Idle { datarequest: false };
                } else if self.entries[0].retries_left > 0 {
                    self.use_retry();
                    self.state = DeviceQueueState::Idle { datarequest: false };
                } else {
                    self.state = DeviceQueueState::HaveResult { result: Err(DeviceQueueError::SendFailure) };
                }
            } else {
                self.state = DeviceQueueState::Idle { datarequest: false };
            }
        }
    }

    /// Reports an acknowledgement with sequence number `seq_nr` and payload
    /// `payload`.
    pub fn process_acknowledge(&mut self, seq_nr: Option<u8>, payload: &Vec<u8>)
        requires
            old(self).wf(),
        ensures
            final(self).wf(),
            final(self)@ == acknowledge_spec(old(self)@, seq_nr, payload@),
    {
        match self.state {
            DeviceQueueState::WaitingForAck { ack_requested } => {
                if same_sequence_number(seq_nr, Some(ack_requested)) {
                    let p = payload.clone();
                    assert(p@ =~= payload@);
                    self.state = DeviceQueueState::HaveResult { result: Ok(p) };
                }
            },
            DeviceQueueState::Sending { send_key, ack_requested } => {
                if same_sequence_number(ack_requested, seq_nr) {
                    self.state = DeviceQueueState::Sending { send_key, ack_requested: None };
                }
            },
            _ => {},
        }
    }

    /// Drops the request whose transaction time ran out first, if any, and
    /// reports it.
    fn poll_timeouts(&mut self, first_expired: Option<usize>) -> (r: Option<DeviceQueueAction>)
        requires
            old(self).wf(),
        ensures
            final(self).wf(),
            ({
                let (q, _, action) = poll_timeouts(old(self)@, vstd::pervasive::arbitrary::<PIBView>(), first_expired);
                &&& final(self)@ == q
                &&& match action {
                    Some(a) => r matches Some(b) && b@ == a,
                    None => r is None,
                }
            }),
    {
        proof {
            lemma_keys_stay_distinct(self@, vstd::pervasive::arbitrary::<PIBView>(), vstd::pervasive::arbitrary::<DataRequestView>(), false, first_expired,
                vstd::pervasive::arbitrary::<UniqueKey>(), vstd::pervasive::arbitrary::<UniqueKey>(), false, None, Seq::empty());
        }
        match first_expired {
            Some(index) => {
                if index < self.entries.len() {
                    let entry = self.entries.remove(index);
                    if index == 0 {
                        self.state = DeviceQueueState::Idle { datarequest: false };
                    }
                    proof {
                        assert(self@.entries =~= old(self)@.entries.remove(index as int));
                    }
                    Some(DeviceQueueAction::ReportResult(entry.data.key, Err(DeviceQueueError::TransactionExpired)))
                } else {
                    None
                }
            },
            None => None,
        }
    }

    /// The next action of the queue, `None` while there is nothing to do.
    /// `ack_timeout_expired` tells whether the acknowledgement timer ran out;
    /// `first_expired` is the position of the first request whose
    /// transaction time ran out, if any.
    pub fn poll_next_action(&mut self, pib: &mut PIB, ack_timeout_expired: bool, first_expired: Option<usize>) -> (r:
        Option<DeviceQueueAction>)
        requires
            old(self).wf(),
        ensures
            final(self).wf(),
            exists|fresh_key: UniqueKey|
                {
                    let (q, p, action) = #[trigger] poll_spec(
                        old(self)@,
                        old(pib)@,
                        ack_timeout_expired,
                        first_expired,
                        fresh_key,
                    );
                    &&& final(self)@ == q
                    &&& final(pib)@ == p
                    &&& match action {
                        Some(a) => r matches Some(b) && b@ == a,
                        None => r is None,
                    }
                },
    {
        let ghost q0 = self@;
        let should_be_pending = self.entries.len() > 0 && self.entries[0].data.indirect;
        let unchanged = match self.last_pending_reported {
            Some(b) => b == should_be_pending,
            None => false,
        };
        if !unchanged {
            self.last_pending_reported = Some(should_be_pending);
            let r = Some(DeviceQueueAction::SetPending(should_be_pending));
            assert(poll_spec(q0, old(pib)@, ack_timeout_expired, first_expired, vstd::pervasive::arbitrary::<UniqueKey>()).0 == self@);
            return r;
        }
        if self.entries.len() == 0 {
            self.state = DeviceQueueState::Idle { datarequest: false };
            assert(poll_spec(q0, old(pib)@, ack_timeout_expired, first_expired, vstd::pervasive::arbitrary::<UniqueKey>()).0 == self@);
            return Some(DeviceQueueAction::Empty());
        }
        let mut state = DeviceQueueState::Idle { datarequest: false };
        core::mem::swap(&mut self.state, &mut state);
        match state {
            DeviceQueueState::Idle { datarequest } => {
                if !self.entries[0].data.indirect || datarequest {
                    let (ack_requested, frame) = DeviceQueue::create_frame(&self.entries[0].data, pib);
                    let send_key = UniqueKey::new();
                    self.state = DeviceQueueState::Sending { send_key, ack_requested };
                    let r = Some(DeviceQueueAction::SendFrame(send_key, frame));
                    assert(poll_spec(q0, old(pib)@, ack_timeout_expired, first_expired, send_key).0 == self@);
                    return r;
                }
            },
            DeviceQueueState::WaitingForAck { ack_requested } => {
                if ack_timeout_expired {
                    if self.entries[0].data.indirect {
                    } else if self.entries[0].retries_left > 0 {
                        self.use_retry();
                    } else {
                        let entry = self.entries.remove(0);
                        proof {
                            lemma_keys_stay_distinct(q0, old(pib)@, vstd::pervasive::arbitrary::<DataRequestView>(), true, None,
                                vstd::pervasive::arbitrary::<UniqueKey>(), vstd::pervasive::arbitrary::<UniqueKey>(), false, None, Seq::empty());
                            assert(self@.entries =~= q0.entries.drop_first());
                        }
                        return Some(DeviceQueueAction::ReportResult(entry.data.key, Err(DeviceQueueError::NoAck)));
                    }
                } else {
                    self.state = DeviceQueueState::WaitingForAck { ack_requested };
                }
            },
            DeviceQueueState::HaveResult { result } => {
                let entry = self.entries.remove(0);
                proof {
                    lemma_keys_stay_distinct(q0, old(pib)@, vstd::pervasive::arbitrary::<DataRequestView>(), false, None,
                        vstd::pervasive::arbitrary::<UniqueKey>(), vstd::pervasive::arbitrary::<UniqueKey>(), false, None, Seq::empty());
                    assert(self@.entries =~= q0.entries.drop_first());
                }
                return Some(DeviceQueueAction::ReportResult(entry.data.key, result));
            },
            s => {
                self.state = s;
            },
        }
        let r = self.poll_timeouts(first_expired);
        assert(poll_spec(q0, old(pib)@, ack_timeout_expired, first_expired, vstd::pervasive::arbitrary::<UniqueKey>()).0 == self@);
        r
    }
}

} // verus!
