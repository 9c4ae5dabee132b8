//! The data service: the queues of frames per destination and the radio's
//! pending-data tables, polled for the next request to the radio.
use crate::ieee802154::mac::combinedpendingtable::{
    CombinedPendingTable, CombinedPendingTableAction, CombinedPendingTableView, TABLE_SIZE,
};
use crate::ieee802154::mac::commands::Command;
use crate::ieee802154::mac::devicequeue::{
    acknowledge_spec, datarequest_spec, first_expired_spec, frame_source, insert_spec, lemma_poll_outcomes,
    poll_spec, send_result_spec, settled, DeviceQueue, DeviceQueueAction, DeviceQueueActionView, DeviceQueueError,
    DeviceQueueStateView, DeviceQueueView,
};
use crate::ieee802154::mac::frame::{
    full_address_of, specification_of, AddressSpecification, AddressingMode, Frame, FrameType, FrameTypeView,
    FrameView, FullAddress,
};
use crate::ieee802154::mac::pendingtable::empty_table;
use crate::ieee802154::pib::{PIBView, PIB};
use crate::ieee802154::{ExtendedAddress, ShortAddress, PANID};
use crate::unique_key::UniqueKey;
use crate::waker_store::WakerStore;
use std::task::Context;
use vstd::prelude::*;

verus! {

/// A frame to send to one destination.
#[derive(Debug, PartialEq, Eq)]
pub struct DataRequest {
    pub key: UniqueKey,
    pub destination: Option<FullAddress>,
    pub source_mode: AddressingMode,
    pub acknowledge_request: bool,
    /// Whether the frame waits until the destination asks for its data.
    pub indirect: bool,
    pub content: FrameType,
}

/// A data request, with its content viewed.
pub struct DataRequestView {
    pub key: UniqueKey,
    pub destination: Option<FullAddress>,
    pub source_mode: AddressingMode,
    pub acknowledge_request: bool,
    pub indirect: bool,
    pub content: FrameTypeView,
}

impl View for DataRequest {
    type V = DataRequestView;

    open spec fn view(&self) -> DataRequestView {
        DataRequestView {
            key: self.key,
            destination: self.destination,
            source_mode: self.source_mode,
            acknowledge_request: self.acknowledge_request,
            indirect: self.indirect,
            content: self.content@,
        }
    }
}


/*=== The service's behaviour, as functions on its state ===*/

/// What the data service asks of the radio or reports to its caller: to
/// clear the radio's pending tables, to write a slot of one of them, to send
/// a frame; or the result of a data request.
#[derive(Debug, PartialEq, Eq)]
pub enum DataServiceAction {
    InitPendingTable(UniqueKey),
    SetPendingShort(UniqueKey, usize, Option<(PANID, ShortAddress)>),
    SetPendingExtended(UniqueKey, usize, Option<ExtendedAddress>),
    SendFrame(UniqueKey, Frame),
    ReportResult(UniqueKey, Result<Vec<u8>, DeviceQueueError>),
}

/// An action, with frames and payloads viewed.
pub enum DataServiceActionView {
    InitPendingTable(UniqueKey),
    SetPendingShort(UniqueKey, usize, Option<(PANID, ShortAddress)>),
    SetPendingExtended(UniqueKey, usize, Option<ExtendedAddress>),
    SendFrame(UniqueKey, FrameView),
    ReportResult(UniqueKey, Result<Seq<u8>, DeviceQueueError>),
}

impl View for DataServiceAction {
    type V = DataServiceActionView;

    open spec fn view(&self) -> DataServiceActionView {
        match self {
            DataServiceAction::InitPendingTable(k) => DataServiceActionView::InitPendingTable(*k),
            DataServiceAction::SetPendingShort(k, i, v) => DataServiceActionView::SetPendingShort(*k, *i, *v),
            DataServiceAction::SetPendingExtended(k, i, v) => DataServiceActionView::SetPendingExtended(*k, *i, *v),
            DataServiceAction::SendFrame(k, f) => DataServiceActionView::SendFrame(*k, f@),
            DataServiceAction::ReportResult(k, r) => DataServiceActionView::ReportResult(
                *k,
                match r {
                    Ok(v) => Ok(v@),
                    Err(e) => Err(*e),
                },
            ),
        }
    }
}

/// The view of an optional action.
pub open spec fn action_view(a: Option<DataServiceAction>) -> Option<DataServiceActionView> {
    match a {
        Some(x) => Some(x@),
        None => None,
    }
}

/// The action for a request about the pending tables.
pub open spec fn table_action(a: CombinedPendingTableAction) -> DataServiceActionView {
    match a {
        CombinedPendingTableAction::Init(k) => DataServiceActionView::InitPendingTable(k),
        CombinedPendingTableAction::UpdateShort(k, i, v) => DataServiceActionView::SetPendingShort(k, i, v),
        CombinedPendingTableAction::UpdateExtended(k, i, v) => DataServiceActionView::SetPendingExtended(k, i, v),
    }
}

/// The state of the data service: a queue per destination, in the order
/// they were made, and the pending tables.
pub struct DataServiceView {
    pub queues: Seq<(Option<FullAddress>, DeviceQueueView)>,
    pub pending_table: CombinedPendingTableView,
}

/// The queue for `destination`, if there is one.
pub open spec fn queue_of(queues: Seq<(Option<FullAddress>, DeviceQueueView)>, destination: Option<FullAddress>) -> Option<int> {
    if exists|i: int| 0 <= i < queues.len() && queues[i].0 == destination {
        Some(choose|i: int| 0 <= i < queues.len() && queues[i].0 == destination)
    } else {
        None
    }
}

/// No destination has two queues, and no queue holds a key twice.
pub open spec fn queues_wf(queues: Seq<(Option<FullAddress>, DeviceQueueView)>) -> bool {
    &&& forall|i: int, j: int| 0 <= i < j < queues.len() ==> #[trigger] queues[i].0 != #[trigger] queues[j].0
    &&& forall|i: int| 0 <= i < queues.len() ==> crate::ieee802154::mac::devicequeue::keys_distinct(#[trigger] queues[i].1.entries)
}

/// A new queue: idle, empty, with no pending bit reported.
pub open spec fn new_queue() -> DeviceQueueView {
    DeviceQueueView {
        state: DeviceQueueStateView::Idle { datarequest: false },
        last_pending_reported: None,
        entries: Seq::empty(),
    }
}

/// How a pass over the queues ended: every queue was quiet; one asked to be
/// discarded (and was); one reported its pending bit; one handed out an
/// action.
pub enum ScanOutcome {
    Quiet(Seq<(Option<FullAddress>, DeviceQueueView)>, PIBView),
    Discard(Seq<(Option<FullAddress>, DeviceQueueView)>, PIBView),
    SetPending(Seq<(Option<FullAddress>, DeviceQueueView)>, PIBView, Option<FullAddress>, bool),
    Act(Seq<(Option<FullAddress>, DeviceQueueView)>, PIBView, DataServiceActionView),
}

/// A pass over the queues from position `i`: each is polled, with its
/// acknowledgement timer run out when its destination is in `ack_expired`
/// and with the first of its requests whose key is in `expired` as the
/// first whose transaction time ran out; the pass goes on while they are
/// quiet.
pub open spec fn scan(
    queues: Seq<(Option<FullAddress>, DeviceQueueView)>,
    i: int,
    pib: PIBView,
    expired: Seq<UniqueKey>,
    ack_expired: Seq<Option<FullAddress>>,
    key: UniqueKey,
) -> ScanOutcome
    decreases queues.len() - i,
{
    if !(0 <= i < queues.len()) {
        ScanOutcome::Quiet(queues, pib)
    } else {
        let (destination, q) = queues[i];
        let (q2, pib2, action) = poll_spec(
            q,
            pib,
            ack_expired.contains(destination),
            first_expired_spec(q.entries, expired),
            key,
        );
        let polled = queues.update(i, (destination, q2));
        match action {
            None => scan(polled, i + 1, pib2, expired, ack_expired, key),
            Some(DeviceQueueActionView::Empty) => ScanOutcome::Discard(queues.remove(i), pib2),
            Some(DeviceQueueActionView::SetPending(pending)) => ScanOutcome::SetPending(polled, pib2, destination, pending),
            Some(DeviceQueueActionView::SendFrame(k, f)) => ScanOutcome::Act(polled, pib2, DataServiceActionView::SendFrame(k, f)),
            Some(DeviceQueueActionView::ReportResult(k, r)) => ScanOutcome::Act(
                polled,
                pib2,
                DataServiceActionView::ReportResult(k, r),
            ),
        }
    }
}

/// One round of polling: done with an action or with none, or to be started
/// again after a queue was discarded or a pending bit was passed to the
/// tables.
pub enum StepView {
    Done(DataServiceView, PIBView, Option<DataServiceActionView>),
    Restart(DataServiceView, PIBView),
}

/// One round of polling: the pending tables first, then a pass over the
/// queues.
pub open spec fn service_step(
    s: DataServiceView,
    pib: PIBView,
    expired: Seq<UniqueKey>,
    ack_expired: Seq<Option<FullAddress>>,
    key: UniqueKey,
) -> StepView {
    let (t, a) = s.pending_table.poll_action(key);
    match a {
        Some(a) => StepView::Done(DataServiceView { pending_table: t, ..s }, pib, Some(table_action(a))),
        None => match scan(s.queues, 0, pib, expired, ack_expired, key) {
            ScanOutcome::Quiet(qs, p) => StepView::Done(DataServiceView { queues: qs, ..s }, p, None),
            ScanOutcome::Discard(qs, p) => StepView::Restart(DataServiceView { queues: qs, ..s }, p),
            ScanOutcome::SetPending(qs, p, destination, pending) => StepView::Restart(
                DataServiceView { queues: qs, pending_table: s.pending_table.set(destination, pending) },
                p,
            ),
            ScanOutcome::Act(qs, p, act) => StepView::Done(DataServiceView { queues: qs, ..s }, p, Some(act)),
        },
    }
}

/// The number of queues whose pending bit is still to be reported.
pub open spec fn unsettled(queues: Seq<(Option<FullAddress>, DeviceQueueView)>) -> nat
    decreases queues.len(),
{
    if queues.len() == 0 {
        0
    } else {
        unsettled(queues.drop_last()) + if settled(queues.last().1) {
            0nat
        } else {
            1nat
        }
    }
}

/// What bounds the rounds of polling.
pub open spec fn poll_measure(queues: Seq<(Option<FullAddress>, DeviceQueueView)>) -> nat {
    queues.len() + unsettled(queues)
}

proof fn lemma_unsettled_update(
    queues: Seq<(Option<FullAddress>, DeviceQueueView)>,
    i: int,
    x: (Option<FullAddress>, DeviceQueueView),
)
    requires
        0 <= i < queues.len(),
    ensures
        unsettled(queues.update(i, x)) + (if settled(queues[i].1) { 0int } else { 1int }) == unsettled(queues) + (
        if settled(x.1) { 0int } else { 1int }),
    decreases queues.len(),
{
    let u = queues.update(i, x);
    if i == queues.len() - 1 {
        assert(u.drop_last() =~= queues.drop_last());
    } else {
        lemma_unsettled_update(queues.drop_last(), i, x);
        assert(u.drop_last() =~= queues.drop_last().update(i, x));
    }
}

proof fn lemma_unsettled_remove(queues: Seq<(Option<FullAddress>, DeviceQueueView)>, i: int)
    requires
        0 <= i < queues.len(),
    ensures
        unsettled(queues.remove(i)) <= unsettled(queues),
    decreases queues.len(),
{
    let r = queues.remove(i);
    if i == queues.len() - 1 {
        assert(r =~= queues.drop_last());
    } else {
        lemma_unsettled_remove(queues.drop_last(), i);
        assert(r.drop_last() =~= queues.drop_last().remove(i));
    }
}

/// A pass that discards a queue or reports a pending bit lowers the measure.
proof fn lemma_scan_measure(
    queues: Seq<(Option<FullAddress>, DeviceQueueView)>,
    i: int,
    pib: PIBView,
    expired: Seq<UniqueKey>,
    ack_expired: Seq<Option<FullAddress>>,
    key: UniqueKey,
)
    requires
        0 <= i,
    ensures
        match scan(queues, i, pib, expired, ack_expired, key) {
            ScanOutcome::Discard(r, _) => poll_measure(r) < poll_measure(queues),
            ScanOutcome::SetPending(r, _, _, _) => poll_measure(r) < poll_measure(queues),
            _ => true,
        },
    decreases queues.len() - i,
{
    if i < queues.len() {
        let (destination, q) = queues[i];
        let ack = ack_expired.contains(destination);
        let fe = first_expired_spec(q.entries, expired);
        let (q2, pib2, action) = poll_spec(q, pib, ack, fe, key);
        let polled = queues.update(i, (destination, q2));
        lemma_poll_outcomes(q, pib, ack, fe, key, key);
        lemma_unsettled_update(queues, i, (destination, q2));
        match action {
            None => {
                lemma_scan_measure(polled, i + 1, pib2, expired, ack_expired, key);
            },
            Some(DeviceQueueActionView::Empty) => {
                lemma_unsettled_remove(queues, i);
            },
            _ => {},
        }
    }
}

/// A pass that hands out no frame does not depend on the key a frame would
/// be sent under.
proof fn lemma_scan_key(
    queues: Seq<(Option<FullAddress>, DeviceQueueView)>,
    i: int,
    pib: PIBView,
    expired: Seq<UniqueKey>,
    ack_expired: Seq<Option<FullAddress>>,
    k1: UniqueKey,
    k2: UniqueKey,
)
    requires
        0 <= i,
        !(scan(queues, i, pib, expired, ack_expired, k1) matches ScanOutcome::Act(_, _, DataServiceActionView::SendFrame(_, _))),
    ensures
        scan(queues, i, pib, expired, ack_expired, k2) == scan(queues, i, pib, expired, ack_expired, k1),
    decreases queues.len() - i,
{
    if i < queues.len() {
        let (destination, q) = queues[i];
        let ack = ack_expired.contains(destination);
        let fe = first_expired_spec(q.entries, expired);
        lemma_poll_outcomes(q, pib, ack, fe, k1, k2);
        let (q2, pib2, action) = poll_spec(q, pib, ack, fe, k1);
        if action is None {
            lemma_scan_key(queues.update(i, (destination, q2)), i + 1, pib2, expired, ack_expired, k1, k2);
        }
    }
}

/// A round that ends with no action, or is to be started again, does not
/// depend on the key.
proof fn lemma_step_key(
    s: DataServiceView,
    pib: PIBView,
    expired: Seq<UniqueKey>,
    ack_expired: Seq<Option<FullAddress>>,
    k1: UniqueKey,
    k2: UniqueKey,
)
    requires
        service_step(s, pib, expired, ack_expired, k1) matches StepView::Done(_, _, None)
            || service_step(s, pib, expired, ack_expired, k1) is Restart,
    ensures
        service_step(s, pib, expired, ack_expired, k2) == service_step(s, pib, expired, ack_expired, k1),
{
    lemma_scan_key(s.queues, 0, pib, expired, ack_expired, k1, k2);
}

/// A round to be started again lowers the measure.
pub proof fn lemma_step_measure(
    s: DataServiceView,
    pib: PIBView,
    expired: Seq<UniqueKey>,
    ack_expired: Seq<Option<FullAddress>>,
    key: UniqueKey,
)
    ensures
        service_step(s, pib, expired, ack_expired, key) matches StepView::Restart(s2, _) ==> poll_measure(s2.queues)
            < poll_measure(s.queues),
{
    lemma_scan_measure(s.queues, 0, pib, expired, ack_expired, key);
}

/// Polling the data service: rounds until one is done. A frame handed out
/// is sent under `key`, and a request to the radio about the pending tables
/// is made under it.
pub open spec fn poll_service(
    s: DataServiceView,
    pib: PIBView,
    expired: Seq<UniqueKey>,
    ack_expired: Seq<Option<FullAddress>>,
    key: UniqueKey,
) -> (DataServiceView, PIBView, Option<DataServiceActionView>)
    decreases poll_measure(s.queues),
{
    match service_step(s, pib, expired, ack_expired, key) {
        StepView::Done(s2, p2, a) => (s2, p2, a),
        StepView::Restart(s2, p2) => {
            proof {
                lemma_step_measure(s, pib, expired, ack_expired, key);
            }
            poll_service(s2, p2, expired, ack_expired, key)
        },
    }
}

impl DataServiceView {
    /// Queueing `entry`: into the queue of its destination, or a new queue
    /// made for it at the end.
    pub open spec fn insert(self, pib: PIBView, entry: DataRequestView) -> DataServiceView {
        match queue_of(self.queues, entry.destination) {
            Some(i) => DataServiceView {
                queues: self.queues.update(i, (entry.destination, insert_spec(self.queues[i].1, pib, entry).0)),
                ..self
            },
            None => DataServiceView {
                queues: self.queues.push((entry.destination, insert_spec(new_queue(), pib, entry).0)),
                ..self
            },
        }
    }

    /// The send result of the frame sent under `key`, handed to every queue.
    pub open spec fn send_result(self, key: UniqueKey, success: bool) -> DataServiceView {
        DataServiceView {
            queues: self.queues.map_values(
                |p: (Option<FullAddress>, DeviceQueueView)| (p.0, send_result_spec(p.1, key, success)),
            ),
            ..self
        }
    }

    /// An acknowledgement, handed to every queue.
    pub open spec fn acknowledge(self, seq_nr: Option<u8>, payload: Seq<u8>) -> DataServiceView {
        DataServiceView {
            queues: self.queues.map_values(
                |p: (Option<FullAddress>, DeviceQueueView)| (p.0, acknowledge_spec(p.1, seq_nr, payload)),
            ),
            ..self
        }
    }

    /// A data request frame: when it is addressed to this device, by its
    /// short or extended address, the queue of its source may send.
    pub open spec fn datarequest(self, pib: PIBView, frame: FrameView) -> DataServiceView {
        if frame.destination == specification_of(frame_source(AddressingMode::Short, pib))
            || frame.destination == specification_of(frame_source(AddressingMode::Extended, pib)) {
            match queue_of(self.queues, full_address_of(frame.source)) {
                Some(i) => DataServiceView {
                    queues: self.queues.update(i, (self.queues[i].0, datarequest_spec(self.queues[i].1))),
                    ..self
                },
                None => self,
            }
        } else {
            self
        }
    }

    /// Whether a data request lets a queue send, which wakes the task that
    /// waits: it is addressed to this device and its source has a queue.
    pub open spec fn datarequest_wakes(self, pib: PIBView, frame: FrameView) -> bool {
        &&& (frame.destination == specification_of(frame_source(AddressingMode::Short, pib))
            || frame.destination == specification_of(frame_source(AddressingMode::Extended, pib)))
        &&& queue_of(self.queues, full_address_of(frame.source)) is Some
    }

    /// A frame received: acknowledgements go to every queue, data requests
    /// to the queue of their source; other frames are not for this service.
    pub open spec fn process_frame(self, pib: PIBView, frame: FrameView) -> DataServiceView {
        match frame.frame_type {
            FrameTypeView::Ack => self.acknowledge(frame.sequence_number, Seq::empty()),
            FrameTypeView::Command(Command::DataRequest()) => self.datarequest(pib, frame),
            _ => self,
        }
    }
}

/// A data service with no queues, and pending tables that are still to be
/// cleared.
pub open spec fn fresh_data_service() -> DataServiceView {
    DataServiceView {
        queues: Seq::empty(),
        pending_table: CombinedPendingTableView {
            initializing: None,
            is_initialized: false,
            none: false,
            short: empty_table(TABLE_SIZE as nat),
            extended: empty_table(TABLE_SIZE as nat),
        },
    }
}

/*=== The service ===*/

/// Whether two optional addresses are equal.
fn same_destination(a: &Option<FullAddress>, b: &Option<FullAddress>) -> (r: bool)
    ensures
        r == (*a == *b),
{
    match (a, b) {
        (None, None) => true,
        (Some(x), Some(y)) => *x == *y,
        _ => false,
    }
}

/// Whether `destination` is in `destinations`.
fn destination_listed(destination: &Option<FullAddress>, destinations: &Vec<Option<FullAddress>>) -> (r: bool)
    ensures
        r == destinations@.contains(*destination),
{
    let mut i: usize = 0;
    while i < destinations.len()
        invariant
            i <= destinations@.len(),
            forall|j: int| 0 <= j < i ==> destinations@[j] != *destination,
        decreases destinations@.len() - i,
    {
        if same_destination(&destinations[i], destination) {
            assert(destinations@[i as int] == *destination);
            return true;
        }
        i = i + 1;
    }
    false
}

/// The frames queued per destination, and the radio's pending tables.
pub struct DataService {
    queues: Vec<(Option<FullAddress>, DeviceQueue)>,
    pending_table: CombinedPendingTable,
    waker: WakerStore,
}

impl View for DataService {
    type V = DataServiceView;

    closed spec fn view(&self) -> DataServiceView {
        DataServiceView {
            queues: self.queues@.map_values(|p: (Option<FullAddress>, DeviceQueue)| (p.0, p.1@)),
            pending_table: self.pending_table@,
        }
    }
}

impl DataService {
    /// The invariant of the service.
    pub closed spec fn wf(&self) -> bool {
        &&& self.pending_table.wf()
        &&& queues_wf(self@.queues)
    }

    /// Whether a task waits to be woken when there may be something to do.
    pub closed spec fn waiting(&self) -> bool {
        self.waker.holds_waker()
    }

    /// No queues, and pending tables that are still to be cleared.
    pub fn new() -> (r: Self)
        ensures
            r.wf(),
            r@ == fresh_data_service(),
    {
        let r = Self { queues: Vec::new(), pending_table: CombinedPendingTable::new(), waker: WakerStore::new() };
        assert(r@.queues =~= Seq::<(Option<FullAddress>, DeviceQueueView)>::empty());
        r
    }

    /// The position of the queue for `destination`.
    fn find_queue(&self, destination: &Option<FullAddress>) -> (r: Option<usize>)
        requires
            self.wf(),
        ensures
            match r {
                Some(i) => queue_of(self@.queues, *destination) == Some(i as int),
                None => queue_of(self@.queues, *destination) is None,
            },
    {
        let mut i: usize = 0;
        while i < self.queues.len()
            invariant
                self.wf(),
                i <= self@.queues.len(),
                forall|j: int| 0 <= j < i ==> self@.queues[j].0 != *destination,
            decreases self@.queues.len() - i,
        {
            assert(self@.queues[i as int].0 == self.queues@[i as int].0);
            if same_destination(&self.queues[i].0, destination) {
                proof {
                    let qs = self@.queues;
                    let c = choose|c: int| 0 <= c < qs.len() && qs[c].0 == *destination;
                    if c != i {
                        if c < i {
                            assert(qs[c].0 != qs[i as int].0);
                        } else {
                            assert(qs[i as int].0 != qs[c].0);
                        }
                    }
                }
                return Some(i);
            }
            i = i + 1;
        }
        None
    }

    /// Queues `entry` for its destination, making a queue for a destination
    /// that has none.
    pub fn insert(&mut self, pib: &PIB, entry: DataRequest)
        requires
            old(self).wf(),
        ensures
            final(self).wf(),
            final(self)@ == old(self)@.insert(pib@, entry@),
            !final(self).waiting(),
    {
        let destination = entry.destination;
        match self.find_queue(&destination) {
            Some(i) => {
                proof {
                    crate::ieee802154::mac::devicequeue::lemma_keys_stay_distinct(
                        self@.queues[i as int].1, pib@, entry@, false, None, entry.key, entry.key, false, None,
                        Seq::empty(),
                    );
                }
                self.queues[i].1.insert(pib, entry);
                assert(self@.queues =~= old(self)@.insert(pib@, entry@).queues);
            },
            None => {
                let mut q = DeviceQueue::new();
                assert(q@.entries =~= Seq::<crate::ieee802154::mac::devicequeue::EntryView>::empty());
                assert(q@ == new_queue());
                q.insert(pib, entry);
                self.queues.push((destination, q));
                proof {
                    let qs = self@.queues;
                    let n = old(self)@.queues.len() as int;
                    assert(qs =~= old(self)@.insert(pib@, entry@).queues);
                    assert forall|a: int, b: int| 0 <= a < b < qs.len() implies #[trigger] qs[a].0 != #[trigger] qs[b].0 by {
                        if b == n {
                            assert(old(self)@.queues[a].0 != destination);
                        }
                    }
                }
            },
        }
        self.waker.wake();
    }

    /// One round of polling: the pending tables, then the queues in turn,
    /// until one has something to do. `None` when the round is to be started
    /// again.
    fn step(
        &mut self,
        pib: &mut PIB,
        expired: &Vec<UniqueKey>,
        ack_expired: &Vec<Option<FullAddress>>,
        cx: &mut Context<'_>,
    ) -> (r: Option<Option<DataServiceAction>>)
        requires
            old(self).wf(),
        ensures
            final(self).wf(),
            exists|key: UniqueKey|
                #[trigger] service_step(old(self)@, old(pib)@, expired@, ack_expired@, key) == match r {
                    Some(a) => StepView::Done(final(self)@, final(pib)@, action_view(a)),
                    None => StepView::Restart(final(self)@, final(pib)@),
                },
            r == Some(None::<DataServiceAction>) ==> final(self).waiting(),
    {
        let ghost s0 = self@;
        let ghost p0 = pib@;
        match self.pending_table.poll_action(cx) {
            Some(a) => {
                let r = match a {
                    CombinedPendingTableAction::Init(k) => DataServiceAction::InitPendingTable(k),
                    CombinedPendingTableAction::UpdateShort(k, i, v) => DataServiceAction::SetPendingShort(k, i, v),
                    CombinedPendingTableAction::UpdateExtended(k, i, v) => DataServiceAction::SetPendingExtended(k, i, v),
                };
                proof {
                    let k = choose|k: UniqueKey| (self@.pending_table, Some(a)) == s0.pending_table.poll_action(k);
                    assert(service_step(s0, p0, expired@, ack_expired@, k) == StepView::Done(self@, pib@, Some(r@)));
                }
                return Some(Some(r));
            },
            None => {},
        }
        proof {
            let k0 = choose|k: UniqueKey| (self@.pending_table, None::<CombinedPendingTableAction>) == s0.pending_table.poll_action(k);
            assert forall|k: UniqueKey| #[trigger] s0.pending_table.poll_action(k) == (s0.pending_table, None::<CombinedPendingTableAction>) by {
                assert(s0.pending_table.poll_action(k0).1 is None);
            }
        }
        let mut i: usize = 0;
        while i < self.queues.len()
            invariant
                self.wf(),
                s0 == old(self)@,
                p0 == old(pib)@,
                self@.pending_table == s0.pending_table,
                i <= self@.queues.len(),
                forall|k: UniqueKey| #[trigger] s0.pending_table.poll_action(k) == (s0.pending_table, None::<CombinedPendingTableAction>),
                forall|k: UniqueKey|
                    #[trigger] scan(s0.queues, 0, p0, expired@, ack_expired@, k) == scan(self@.queues, i as int, pib@, expired@, ack_expired@, k),
            decreases self@.queues.len() - i,
        {
            let ghost qs = self@.queues;
            let ghost pb = pib@;
            let destination = self.queues[i].0;
            let first_expired = self.queues[i].1.first_expired(expired);
            let ack = destination_listed(&destination, ack_expired);
            assert(qs[i as int] == (destination, self.queues@[i as int].1@));
            let action = self.queues[i].1.poll_next_action(pib, ack, first_expired);
            let ghost q = qs[i as int].1;
            let ghost fk = choose|fk: UniqueKey| {
                let (q2, p2, a2) = #[trigger] poll_spec(q, pb, ack, first_expired, fk);
                &&& self@.queues[i as int].1 == q2
                &&& pib@ == p2
                &&& match a2 {
                    Some(a) => action matches Some(b) && b@ == a,
                    None => action is None,
                }
            };
            proof {
                assert(self@.queues =~= qs.update(i as int, (destination, self@.queues[i as int].1)));
                assert forall|k: UniqueKey| #[trigger] poll_spec(q, pb, ack, first_expired, k) == poll_spec(q, pb, ack, first_expired, fk)
                    || poll_spec(q, pb, ack, first_expired, fk).2 matches Some(DeviceQueueActionView::SendFrame(_, _)) by {
                    lemma_poll_outcomes(q, pb, ack, first_expired, fk, k);
                }
                crate::ieee802154::mac::devicequeue::lemma_keys_stay_distinct(
                    q, pb, arbitrary(), ack, first_expired, fk, fk, false, None, Seq::empty(),
                );
                let nq = self@.queues;
                assert forall|a: int, b: int| 0 <= a < b < nq.len() implies #[trigger] nq[a].0 != #[trigger] nq[b].0 by {
                    assert(nq[a].0 == qs[a].0 && nq[b].0 == qs[b].0);
                }
            }
            match action {
                None => {
                    i = i + 1;
                },
                Some(DeviceQueueAction::Empty()) => {
                    self.queues.remove(i);
                    proof {
                        let nq = self@.queues;
                        assert(nq =~= qs.remove(i as int));
                        assert forall|a: int, b: int| 0 <= a < b < nq.len() implies #[trigger] nq[a].0 != #[trigger] nq[b].0 by {
                            let a2 = if a < i { a } else { a + 1 };
                            let b2 = if b < i { b } else { b + 1 };
                            assert(nq[a] == qs[a2] && nq[b] == qs[b2]);
                        }
                        assert forall|a: int| 0 <= a < nq.len() implies crate::ieee802154::mac::devicequeue::keys_distinct(#[trigger] nq[a].1.entries) by {
                            let a2 = if a < i { a } else { a + 1 };
                            assert(nq[a] == qs[a2]);
                        }
                        assert(service_step(s0, p0, expired@, ack_expired@, fk) == StepView::Restart(self@, pib@));
                    }
                    return None;
                },
                Some(DeviceQueueAction::SetPending(pending)) => {
                    self.pending_table.set(&destination, pending);
                    proof {
                        assert(service_step(s0, p0, expired@, ack_expired@, fk) == StepView::Restart(self@, pib@));
                    }
                    return None;
                },
                Some(DeviceQueueAction::SendFrame(k, f)) => {
                    let r = DataServiceAction::SendFrame(k, f);
                    proof {
                        assert(service_step(s0, p0, expired@, ack_expired@, fk) == StepView::Done(self@, pib@, Some(r@)));
                    }
                    return Some(Some(r));
                },
                Some(DeviceQueueAction::ReportResult(k, result)) => {
                    let r = DataServiceAction::ReportResult(k, result);
                    proof {
                        assert(service_step(s0, p0, expired@, ack_expired@, fk) == StepView::Done(self@, pib@, Some(r@)));
                    }
                    return Some(Some(r));
                },
            }
        }
        self.waker.register_context(cx);
        proof {
            assert(service_step(s0, p0, expired@, ack_expired@, arbitrary()) == StepView::Done(self@, pib@, None));
        }
        Some(None)
    }

    /// The next action of the service: a request about the pending tables
    /// first; then, round after round, the queues in turn (a queue that is
    /// empty is discarded, and the pending bit a queue reports goes to the
    /// tables) until one hands out a frame to send or a result. `expired`
    /// holds the keys of the requests whose transaction time ran out,
    /// `ack_expired` the destinations whose acknowledgement timer ran out.
    /// Without an action, the task polling waits to be woken.
    pub fn poll_action(
        &mut self,
        pib: &mut PIB,
        expired: &Vec<UniqueKey>,
        ack_expired: &Vec<Option<FullAddress>>,
        cx: &mut Context<'_>,
    ) -> (r: Option<DataServiceAction>)
        requires
            old(self).wf(),
        ensures
            final(self).wf(),
            exists|key: UniqueKey|
                #[trigger] poll_service(old(self)@, old(pib)@, expired@, ack_expired@, key) == (
                    final(self)@,
                    final(pib)@,
                    action_view(r),
                ),
            r is None ==> final(self).waiting(),
    {
        loop
            invariant
                self.wf(),
                forall|k: UniqueKey|
                    #[trigger] poll_service(self@, pib@, expired@, ack_expired@, k) == poll_service(
                        old(self)@,
                        old(pib)@,
                        expired@,
                        ack_expired@,
                        k,
                    ),
            decreases poll_measure(self@.queues),
        {
            let ghost s0 = self@;
            let ghost p0 = pib@;
            match self.step(pib, expired, ack_expired, cx) {
                Some(r) => {
                    proof {
                        let k = choose|k: UniqueKey|
                            #[trigger] service_step(s0, p0, expired@, ack_expired@, k) == StepView::Done(
                                self@,
                                pib@,
                                action_view(r),
                            );
                        assert(poll_service(s0, p0, expired@, ack_expired@, k) == (self@, pib@, action_view(r)));
                    }
                    return r;
                },
                None => {
                    proof {
                        let k0 = choose|k: UniqueKey|
                            #[trigger] service_step(s0, p0, expired@, ack_expired@, k) == StepView::Restart(self@, pib@);
                        lemma_step_measure(s0, p0, expired@, ack_expired@, k0);
                        assert forall|k: UniqueKey| #[trigger]
                            poll_service(self@, pib@, expired@, ack_expired@, k) == poll_service(
                                s0,
                                p0,
                                expired@,
                                ack_expired@,
                                k,
                            ) by {
                            lemma_step_key(s0, p0, expired@, ack_expired@, k0, k);
                        }
                    }
                },
            }
        }
    }

    /// Reports the result of clearing the pending tables.
    pub fn process_init_pending_table_result(&mut self, key: UniqueKey, success: bool)
        requires
            old(self).wf(),
        ensures
            final(self).wf(),
            final(self)@ == (DataServiceView {
                pending_table: old(self)@.pending_table.report_init_result(key, success),
                ..old(self)@
            }),
            final(self).waiting() == old(self).waiting(),
    {
        self.pending_table.report_init_result(key, success)
    }

    /// Reports the result of writing a slot of a pending table.
    pub fn process_set_pending_result(&mut self, key: UniqueKey, success: bool)
        requires
            old(self).wf(),
        ensures
            final(self).wf(),
            final(self)@ == (DataServiceView {
                pending_table: old(self)@.pending_table.report_update_result(key, success),
                ..old(self)@
            }),
            final(self).waiting() == old(self).waiting(),
    {
        self.pending_table.report_update_result(key, success)
    }

    /// Reports the send result of the frame sent under `key` to every queue.
    pub fn process_send_result(&mut self, key: UniqueKey, success: bool)
        requires
            old(self).wf(),
        ensures
            final(self).wf(),
            final(self)@ == old(self)@.send_result(key, success),
            final(self).waiting() == old(self).waiting(),
    {
        let mut i: usize = 0;
        while i < self.queues.len()
            invariant
                self.wf(),
                self.waiting() == old(self).waiting(),
                self@.pending_table == old(self)@.pending_table,
                self@.queues.len() == old(self)@.queues.len(),
                i <= self@.queues.len(),
                forall|j: int| 0 <= j < i ==> #[trigger] self@.queues[j] == (
                    old(self)@.queues[j].0,
                    send_result_spec(old(self)@.queues[j].1, key, success),
                ),
                forall|j: int| i <= j < self@.queues.len() ==> #[trigger] self@.queues[j] == old(self)@.queues[j],
            decreases self@.queues.len() - i,
        {
            let ghost qs = self@.queues;
            proof {
                crate::ieee802154::mac::devicequeue::lemma_keys_stay_distinct(
                    qs[i as int].1, arbitrary(), arbitrary(), false, None, key, key, success, None, Seq::empty(),
                );
            }
            self.queues[i].1.process_send_result(key, success);
            proof {
                let nq = self@.queues;
                assert(nq =~= qs.update(i as int, (qs[i as int].0, send_result_spec(qs[i as int].1, key, success))));
                assert forall|a: int, b: int| 0 <= a < b < nq.len() implies #[trigger] nq[a].0 != #[trigger] nq[b].0 by {
                    assert(nq[a].0 == qs[a].0 && nq[b].0 == qs[b].0);
                }
            }
            i = i + 1;
        }
        assert(self@.queues =~= old(self)@.send_result(key, success).queues);
    }

    /// Hands an acknowledgement to every queue.
    fn process_frame_ack(&mut self, frame: &Frame)
        requires
            old(self).wf(),
        ensures
            final(self).wf(),
            final(self)@ == old(self)@.acknowledge(frame.sequence_number, Seq::empty()),
            final(self).waiting() == old(self).waiting(),
    {
        let payload: Vec<u8> = Vec::new();
        assert(payload@ =~= Seq::<u8>::empty());
        let mut i: usize = 0;
        while i < self.queues.len()
            invariant
                self.wf(),
                self.waiting() == old(self).waiting(),
                payload@ == Seq::<u8>::empty(),
                self@.pending_table == old(self)@.pending_table,
                self@.queues.len() == old(self)@.queues.len(),
                i <= self@.queues.len(),
                forall|j: int| 0 <= j < i ==> #[trigger] self@.queues[j] == (
                    old(self)@.queues[j].0,
                    acknowledge_spec(old(self)@.queues[j].1, frame.sequence_number, Seq::empty()),
                ),
                forall|j: int| i <= j < self@.queues.len() ==> #[trigger] self@.queues[j] == old(self)@.queues[j],
            decreases self@.queues.len() - i,
        {
            let ghost qs = self@.queues;
            proof {
                crate::ieee802154::mac::devicequeue::lemma_keys_stay_distinct(
                    qs[i as int].1, arbitrary(), arbitrary(), false, None, arbitrary(), arbitrary(), false,
                    frame.sequence_number, Seq::empty(),
                );
            }
            self.queues[i].1.process_acknowledge(frame.sequence_number, &payload);
            proof {
                let nq = self@.queues;
                assert(nq =~= qs.update(
                    i as int,
                    (qs[i as int].0, acknowledge_spec(qs[i as int].1, frame.sequence_number, Seq::empty())),
                ));
                assert forall|a: int, b: int| 0 <= a < b < nq.len() implies #[trigger] nq[a].0 != #[trigger] nq[b].0 by {
                    assert(nq[a].0 == qs[a].0 && nq[b].0 == qs[b].0);
                }
            }
            i = i + 1;
        }
        assert(self@.queues =~= old(self)@.acknowledge(frame.sequence_number, Seq::empty()).queues);
    }

    /// A data request frame: when addressed to this device, the queue of its
    /// source may send, and the task waiting is woken.
    fn process_frame_data_request(&mut self, pib: &PIB, frame: &Frame)
        requires
            old(self).wf(),
        ensures
            final(self).wf(),
            final(self)@ == old(self)@.datarequest(pib@, frame@),
            final(self).waiting() == (old(self).waiting() && !old(self)@.datarequest_wakes(pib@, frame@)),
    {
        let short = AddressSpecification::from(Some(pib.get_full_short_address()));
        let extended = AddressSpecification::from(Some(pib.get_full_extended_address()));
        if frame.destination == short || frame.destination == extended {
            let source = Option::<FullAddress>::from(frame.source);
            match self.find_queue(&source) {
                Some(i) => {
                    let ghost qs = self@.queues;
                    self.queues[i].1.process_datarequest();
                    self.waker.wake();
                    proof {
                        let nq = self@.queues;
                        assert(nq =~= old(self)@.datarequest(pib@, frame@).queues);
                        assert forall|a: int, b: int| 0 <= a < b < nq.len() implies #[trigger] nq[a].0 != #[trigger] nq[b].0 by {
                            assert(nq[a].0 == qs[a].0 && nq[b].0 == qs[b].0);
                        }
                    }
                },
                None => {},
            }
        }
    }

    /// A frame received from the radio.
    pub fn process_frame(&mut self, pib: &PIB, frame: &Frame)
        requires
            old(self).wf(),
        ensures
            final(self).wf(),
            final(self)@ == old(self)@.process_frame(pib@, frame@),
            final(self).waiting() == (old(self).waiting() && !(frame@.frame_type == FrameTypeView::Command(
                Command::DataRequest(),
            ) && old(self)@.datarequest_wakes(pib@, frame@))),
    {
        match &frame.frame_type {
            FrameType::Ack => self.process_frame_ack(frame),
            FrameType::Command(Command::DataRequest()) => self.process_frame_data_request(pib, frame),
            _ => {},
        }
    }
}

} // verus!
