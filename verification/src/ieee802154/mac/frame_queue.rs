//! Frames queued per destination, each destination run by the state machine
//! of `device_queue`. The frames that are done are handed to the caller with
//! their channels and outcomes, for the caller to send. The timers the state machines ask for are kept by the
//! caller: the queue hands out the timer commands, and the caller reports a
//! timer that ran out.
use crate::ieee802154::mac::device_queue::{
    channels, frames_held, settled_with, DeviceQueue, DeviceQueueAction, DeviceQueueActionView, DeviceQueueError,
    DeviceQueueItem, DeviceQueueView, ItemView, Outcome, Settlement,
};
use crate::ieee802154::mac::device_queue::action_view;
use crate::ieee802154::mac::frame::{AddressSpecification, Frame, FrameView};
use crate::ieee802154::mac::queue::{
    firsts_distinct, lemma_push_keeps_distinct, lemma_remove_keeps_distinct, lemma_update_keeps_distinct,
};
use crate::ieee802154::pib::{duration_from_secs, duration_of_secs};
use crate::saved_waker::SavedWaker;
use futures::channel::oneshot;
use std::task::Context;
use std::time::Duration;
use vstd::prelude::*;

pub use crate::ieee802154::mac::device_queue::DeviceQueueError as QueueError;

verus! {

/// How long a frame waits for its destination to ask for it, in seconds.
pub const DATA_REQUEST_WAIT_SECS: u64 = 10;

/// How many more times a frame is tried.
pub const RETRIES: usize = 5;

/// What the queue hands out: a frame to send, or a destination whose queue
/// ran empty.
#[derive(Debug)]
pub enum QueueEvent {
    OutgoingFrame(AddressSpecification, Frame),
    QueueFlushed(AddressSpecification),
}

/// An event, with its frame viewed.
pub enum QueueEventView {
    OutgoingFrame(AddressSpecification, FrameView),
    QueueFlushed(AddressSpecification),
}

impl View for QueueEvent {
    type V = QueueEventView;

    open spec fn view(&self) -> QueueEventView {
        match self {
            QueueEvent::OutgoingFrame(d, f) => QueueEventView::OutgoingFrame(*d, f@),
            QueueEvent::QueueFlushed(d) => QueueEventView::QueueFlushed(*d),
        }
    }
}

/// What the caller is to do with the timer of a destination: start one,
/// start it again with a new duration, or cancel it. When a timer runs out,
/// the caller calls `on_timer`.
#[derive(Debug, Clone, Copy, PartialEq, Eq)]
pub enum TimerCommand {
    Start(AddressSpecification, Duration),
    Reset(AddressSpecification, Duration),
    Cancel(AddressSpecification),
}

/// An event of one destination's state machine.
pub enum Input {
    Enqueue(DeviceQueueItem),
    Timer,
    SendResult(bool),
    DataRequest,
}

/// An event, with its frame viewed.
pub enum InputView {
    Enqueue(ItemView),
    Timer,
    SendResult(bool),
    DataRequest,
}

impl View for Input {
    type V = InputView;

    open spec fn view(&self) -> InputView {
        match self {
            Input::Enqueue(item) => InputView::Enqueue(item@),
            Input::Timer => InputView::Timer,
            Input::SendResult(b) => InputView::SendResult(*b),
            Input::DataRequest => InputView::DataRequest,
        }
    }
}

/// The state machine of a destination taking an event.
pub open spec fn apply_spec(q: DeviceQueueView, input: InputView) -> (DeviceQueueView, Option<DeviceQueueActionView>) {
    match input {
        InputView::Enqueue(item) => q.enqueue(item),
        InputView::Timer => q.on_timer(),
        InputView::SendResult(b) => q.on_send_result(b),
        InputView::DataRequest => q.on_data_request(),
    }
}

/// The state of the queue: the busy destinations with their state, the
/// destinations whose queue ran empty (oldest first), the destinations with
/// a running timer, the timer commands not handed out yet and the frames to
/// send (oldest first).
pub struct QueueView {
    pub queues: Seq<(AddressSpecification, DeviceQueueView)>,
    pub flushed: Seq<AddressSpecification>,
    pub running_timers: Seq<AddressSpecification>,
    pub timer_commands: Seq<TimerCommand>,
    pub outgoing: Seq<(AddressSpecification, FrameView)>,
}

/// Where the state of `destination` is, if it is busy.
pub open spec fn position_of(queues: Seq<(AddressSpecification, DeviceQueueView)>, destination: AddressSpecification) -> Option<int> {
    if exists|i: int| 0 <= i < queues.len() && queues[i].0 == destination {
        Some(choose|i: int| 0 <= i < queues.len() && queues[i].0 == destination)
    } else {
        None
    }
}

impl QueueView {
    /// Stopping the timer of `destination`, if one runs.
    pub open spec fn stop_timer(self, destination: AddressSpecification) -> QueueView {
        if self.running_timers.contains(destination) {
            QueueView {
                running_timers: self.running_timers.remove(self.running_timers.index_of(destination)),
                timer_commands: self.timer_commands.push(TimerCommand::Cancel(destination)),
                ..self
            }
        } else {
            self
        }
    }

    /// Carrying out an action of the state machine of `destination`: a timer
    /// is started, or started again when one runs; stopped; or stopped and
    /// the frame queued to be sent.
    pub open spec fn handle_action(self, destination: AddressSpecification, action: DeviceQueueActionView) -> QueueView {
        match action {
            DeviceQueueActionView::StartTimer(d) => if self.running_timers.contains(destination) {
                QueueView { timer_commands: self.timer_commands.push(TimerCommand::Reset(destination, d)), ..self }
            } else {
                QueueView {
                    running_timers: self.running_timers.push(destination),
                    timer_commands: self.timer_commands.push(TimerCommand::Start(destination, d)),
                    ..self
                }
            },
            DeviceQueueActionView::StopTimer => self.stop_timer(destination),
            DeviceQueueActionView::StopTimerStartSend(f) => {
                let s = self.stop_timer(destination);
                QueueView { outgoing: s.outgoing.push((destination, f)), ..s }
            },
        }
    }

    /// An event for `destination`: its state (idle when it has none) takes
    /// the event; an idle one is dropped and the destination recorded as
    /// flushed, a busy one is kept (last); then the action is carried out.
    pub open spec fn update(self, destination: AddressSpecification, input: InputView) -> QueueView {
        let (current, rest) = match position_of(self.queues, destination) {
            Some(i) => (self.queues[i].1, self.queues.remove(i)),
            None => (DeviceQueueView::Idle, self.queues),
        };
        let (next, action) = apply_spec(current, input);
        let s = if next is Idle {
            QueueView { queues: rest, flushed: self.flushed.push(destination), ..self }
        } else {
            QueueView { queues: rest.push((destination, next)), ..self }
        };
        match action {
            Some(a) => s.handle_action(destination, a),
            None => s,
        }
    }

    /// Taking out the oldest flushed destination that is not busy again.
    pub open spec fn next_flushed(self) -> (QueueView, Option<AddressSpecification>)
        decreases self.flushed.len(),
    {
        if self.flushed.len() == 0 {
            (self, None)
        } else {
            let f = self.flushed[0];
            let s = QueueView { flushed: self.flushed.drop_first(), ..self };
            if position_of(self.queues, f) is None {
                (s, Some(f))
            } else {
                s.next_flushed()
            }
        }
    }

    /// The next event: the oldest frame to send, then the oldest flushed
    /// destination that is not busy again.
    pub open spec fn poll_event(self) -> (QueueView, Option<QueueEventView>) {
        if self.outgoing.len() > 0 {
            let (d, f) = self.outgoing[0];
            (QueueView { outgoing: self.outgoing.drop_first(), ..self }, Some(QueueEventView::OutgoingFrame(d, f)))
        } else {
            let (s, f) = self.next_flushed();
            (
                s,
                match f {
                    Some(d) => Some(QueueEventView::QueueFlushed(d)),
                    None => None,
                },
            )
        }
    }
}

/// Carrying out actions in turn.
pub open spec fn handle_all(s: QueueView, actions: Seq<(AddressSpecification, DeviceQueueActionView)>) -> QueueView
    decreases actions.len(),
{
    if actions.len() == 0 {
        s
    } else {
        handle_all(s.handle_action(actions[0].0, actions[0].1), actions.drop_first())
    }
}

/// The actions the states of `queues` give for an acknowledgement, in turn.
pub open spec fn ack_actions(queues: Seq<(AddressSpecification, DeviceQueueView)>, ack: u8) -> Seq<
    (AddressSpecification, DeviceQueueActionView),
>
    decreases queues.len(),
{
    if queues.len() == 0 {
        Seq::empty()
    } else {
        let rest = ack_actions(queues.drop_last(), ack);
        match queues.last().1.on_ack(ack).1 {
            Some(a) => rest.push((queues.last().0, a)),
            None => rest,
        }
    }
}

/// The states of `queues` after an acknowledgement.
pub open spec fn acked(queues: Seq<(AddressSpecification, DeviceQueueView)>, ack: u8) -> Seq<
    (AddressSpecification, DeviceQueueView),
> {
    queues.map_values(|p: (AddressSpecification, DeviceQueueView)| (p.0, p.1.on_ack(ack).0))
}

/// Whether a destination's state is busy.
pub open spec fn busy() -> spec_fn((AddressSpecification, DeviceQueueView)) -> bool {
    |p: (AddressSpecification, DeviceQueueView)| !(p.1 is Idle)
}

impl QueueView {
    /// An acknowledgement with sequence number `ack`, handed to every
    /// destination; the idle ones are dropped (not recorded as flushed) and
    /// the actions are carried out in turn.
    pub open spec fn on_ack(self, ack: u8) -> QueueView {
        handle_all(
            QueueView { queues: acked(self.queues, ack).filter(busy()), ..self },
            ack_actions(self.queues, ack),
        )
    }
}

impl QueueView {
    /// A timer ran out for `destination`: it no longer runs, and the state
    /// of the destination takes the event.
    pub open spec fn on_timer(self, destination: AddressSpecification) -> QueueView {
        let s = if self.running_timers.contains(destination) {
            QueueView {
                running_timers: self.running_timers.remove(self.running_timers.index_of(destination)),
                ..self
            }
        } else {
            self
        };
        s.update(destination, InputView::Timer)
    }
}

/// The item a frame is queued as: it waits for a data request when the
/// destination's receiver is off when idle, for at most ten seconds, and
/// has five more tries.
pub open spec fn queued_item(frame: FrameView, receiver_on_when_idle: bool) -> ItemView {
    ItemView {
        frame,
        wait_for_datarequest: !receiver_on_when_idle,
        max_wait_for_datarequest: Some(duration_of_secs(DATA_REQUEST_WAIT_SECS)),
        retries: RETRIES,
    }
}

/// Keeping some pairs keeps the first components distinct.
proof fn lemma_filter_keeps_distinct(
    s: Seq<(AddressSpecification, DeviceQueueView)>,
    f: spec_fn((AddressSpecification, DeviceQueueView)) -> bool,
)
    requires
        firsts_distinct(s),
    ensures
        firsts_distinct(s.filter(f)),
        forall|x: (AddressSpecification, DeviceQueueView)| s.filter(f).contains(x) ==> s.contains(x),
    decreases s.len(),
{
    reveal_with_fuel(Seq::filter, 1);
    if s.len() > 0 {
        let d = s.drop_last();
        assert forall|a: int, b: int| 0 <= a < b < d.len() implies #[trigger] d[a].0 != #[trigger] d[b].0 by {
            assert(d[a] == s[a] && d[b] == s[b]);
        }
        lemma_filter_keeps_distinct(d, f);
        let r = d.filter(f);
        assert forall|x: (AddressSpecification, DeviceQueueView)| d.contains(x) implies s.contains(x) by {
            let j = choose|j: int| 0 <= j < d.len() && d[j] == x;
            assert(s[j] == x);
        }
        if f(s.last()) {
            let p = r.push(s.last());
            assert forall|a: int, b: int| 0 <= a < b < p.len() implies #[trigger] p[a].0 != #[trigger] p[b].0 by {
                if b == r.len() {
                    assert(r.contains(r[a]));
                    assert(d.contains(r[a]));
                    let j = choose|j: int| 0 <= j < d.len() && d[j] == r[a];
                    assert(s[j] == d[j]);
                    assert(s[j].0 != s[s.len() - 1].0);
                } else {
                    assert(p[a] == r[a] && p[b] == r[b]);
                }
            }
            assert forall|x: (AddressSpecification, DeviceQueueView)| p.contains(x) implies s.contains(x) by {
                let j = choose|j: int| 0 <= j < p.len() && p[j] == x;
                if j == r.len() {
                    assert(s[s.len() - 1] == x);
                } else {
                    assert(r.contains(x));
                }
            }
        }
    }
}

/// The frames queued per destination.
pub struct Queue {
    queues: Vec<(AddressSpecification, DeviceQueue)>,
    flushed: Vec<AddressSpecification>,
    running_timers: Vec<AddressSpecification>,
    timer_commands: Vec<TimerCommand>,
    outgoing: Vec<(AddressSpecification, Frame)>,
    stream_waker: SavedWaker,
}

impl View for Queue {
    type V = QueueView;

    closed spec fn view(&self) -> QueueView {
        QueueView {
            queues: pairs_view(self.queues@),
            flushed: self.flushed@,
            running_timers: self.running_timers@,
            timer_commands: self.timer_commands@,
            outgoing: self.outgoing@.map_values(|p: (AddressSpecification, Frame)| (p.0, p.1@)),
        }
    }
}

/// The view of a list of destination states.
pub open spec fn pairs_view(queues: Seq<(AddressSpecification, DeviceQueue)>) -> Seq<(AddressSpecification, DeviceQueueView)> {
    queues.map_values(|p: (AddressSpecification, DeviceQueue)| (p.0, p.1@))
}

/// The view of a list of actions.
pub open spec fn actions_view(actions: Seq<(AddressSpecification, DeviceQueueAction)>) -> Seq<
    (AddressSpecification, DeviceQueueActionView),
> {
    actions.map_values(|p: (AddressSpecification, DeviceQueueAction)| (p.0, p.1@))
}

/// What an event settles the front frame of a destination state with.
pub open spec fn input_outcome(q: DeviceQueueView, input: InputView) -> Outcome {
    match input {
        InputView::Timer => q.timer_outcome(),
        InputView::SendResult(b) => q.send_result_outcome(b),
        _ => None,
    }
}

/// The state of `destination` (idle when it is not busy).
pub open spec fn state_of(queues: Seq<(AddressSpecification, DeviceQueueView)>, destination: AddressSpecification) -> DeviceQueueView {
    match position_of(queues, destination) {
        Some(i) => queues[i].1,
        None => DeviceQueueView::Idle,
    }
}

/// The channels of the frames queued for `destination`, front first.
pub open spec fn channels_for(
    queues: Seq<(AddressSpecification, DeviceQueue)>,
    destination: AddressSpecification,
) -> Seq<oneshot::Sender<Result<(), DeviceQueueError>>> {
    match position_of(pairs_view(queues), destination) {
        Some(i) => channels(queues[i].1),
        None => Seq::empty(),
    }
}

/// The frames an acknowledgement settles, destination by destination: each
/// frame's channel and the outcome to send on it.
pub open spec fn ack_settlements(queues: Seq<(AddressSpecification, DeviceQueue)>, ack: u8) -> Seq<
    (oneshot::Sender<Result<(), DeviceQueueError>>, Result<(), DeviceQueueError>),
>
    decreases queues.len(),
{
    if queues.len() == 0 {
        Seq::empty()
    } else {
        let prev = ack_settlements(queues.drop_last(), ack);
        let q = queues.last().1;
        match settled_with(channels(q), q@.ack_outcome(ack)) {
            Some(x) => prev.push(x),
            None => prev,
        }
    }
}

/// A state machine taking an event.
fn apply(q: DeviceQueue, input: Input) -> (r: (DeviceQueue, Option<DeviceQueueAction>, Settlement))
    ensures
        (r.0@, action_view(r.1)) == apply_spec(q@, input@),
        r.2 == settled_with(channels(q), input_outcome(q@, input@)),
{
    match input {
        Input::Enqueue(item) => {
            let (q, a) = q.enqueue(item);
            (q, a, None)
        },
        Input::Timer => q.on_timer(),
        Input::SendResult(b) => q.on_send_result(b),
        Input::DataRequest => {
            let (q, a) = q.on_data_request();
            (q, a, None)
        },
    }
}

impl Queue {
    /// The state machines of the busy destinations, with their frames'
    /// channels.
    pub closed spec fn device_queues(&self) -> Seq<(AddressSpecification, DeviceQueue)> {
        self.queues@
    }

    /// The invariant: no destination is busy twice, and no timer is
    /// recorded twice.
    pub closed spec fn wf(&self) -> bool {
        &&& firsts_distinct(self@.queues)
        &&& self@.running_timers.no_duplicates()
    }

    /// Whether a task waits to be woken when there is an event.
    pub closed spec fn waiting(&self) -> bool {
        self.stream_waker.is_set()
    }

    /// An empty queue.
    pub fn new() -> (r: Queue)
        ensures
            r.wf(),
            r@ == (QueueView {
                queues: Seq::empty(),
                flushed: Seq::empty(),
                running_timers: Seq::empty(),
                timer_commands: Seq::empty(),
                outgoing: Seq::empty(),
            }),
    {
        let r = Queue {
            queues: Vec::new(),
            flushed: Vec::new(),
            running_timers: Vec::new(),
            timer_commands: Vec::new(),
            outgoing: Vec::new(),
            stream_waker: SavedWaker::new(),
        };
        assert(r@.queues =~= Seq::<(AddressSpecification, DeviceQueueView)>::empty());
        assert(r@.outgoing =~= Seq::<(AddressSpecification, FrameView)>::empty());
        r
    }

    /// Where the state of `destination` is, if it is busy.
    fn find(&self, destination: AddressSpecification) -> (r: Option<usize>)
        requires
            self.wf(),
        ensures
            match r {
                Some(i) => position_of(self@.queues, destination) == Some(i as int),
                None => position_of(self@.queues, destination) is None,
            },
    {
        let mut i: usize = 0;
        while i < self.queues.len()
            invariant
                self.wf(),
                i <= self@.queues.len(),
                forall|j: int| 0 <= j < i ==> self@.queues[j].0 != destination,
            decreases self@.queues.len() - i,
        {
            assert(self@.queues[i as int].0 == self.queues@[i as int].0);
            if self.queues[i].0 == destination {
                proof {
                    let qs = self@.queues;
                    let c = choose|c: int| 0 <= c < qs.len() && qs[c].0 == destination;
                    if c < i {
                        assert(qs[c].0 != qs[i as int].0);
                    } else if c > i {
                        assert(qs[i as int].0 != qs[c].0);
                    }
                }
                return Some(i);
            }
            i = i + 1;
        }
        None
    }

    /// Takes `destination` out of the running timers, if it is there.
    fn forget_timer(&mut self, destination: AddressSpecification) -> (r: bool)
        requires
            old(self).wf(),
        ensures
            final(self).wf(),
            r == old(self)@.running_timers.contains(destination),
            final(self)@ == if r {
                QueueView {
                    running_timers: old(self)@.running_timers.remove(old(self)@.running_timers.index_of(destination)),
                    ..old(self)@
                }
            } else {
                old(self)@
            },
            final(self).waiting() == old(self).waiting(),
            final(self).queues@ == old(self).queues@,
    {
        let mut i: usize = 0;
        while i < self.running_timers.len()
            invariant
                self.wf(),
                self@ == old(self)@,
                self.queues@ == old(self).queues@,
                self.waiting() == old(self).waiting(),
                i <= self@.running_timers.len(),
                forall|j: int| 0 <= j < i ==> self@.running_timers[j] != destination,
            decreases self@.running_timers.len() - i,
        {
            if self.running_timers[i] == destination {
                proof {
                    let t = self@.running_timers;
                    assert(t.contains(destination));
                    let c = t.index_of(destination);
                    assert(0 <= c < t.len() && t[c] == destination);
                    assert(c == i);
                }
                let ghost before = self@;
                self.running_timers.remove(i);
                proof {
                    let t = before.running_timers;
                    let r = self@.running_timers;
                    assert(r =~= t.remove(i as int));
                    assert forall|a: int, b: int| 0 <= a < b < r.len() implies r[a] != r[b] by {
                        let a2 = if a < i { a } else { a + 1 };
                        let b2 = if b < i { b } else { b + 1 };
                        assert(r[a] == t[a2] && r[b] == t[b2]);
                    }
                    assert(self@.queues == before.queues);
                    assert(self@.outgoing == before.outgoing);
                }
                return true;
            }
            i = i + 1;
        }
        false
    }

    /// Stops the timer of `destination`, if one runs.
    fn stop_timer(&mut self, destination: AddressSpecification)
        requires
            old(self).wf(),
        ensures
            final(self).wf(),
            final(self)@ == old(self)@.stop_timer(destination),
            final(self).waiting() == old(self).waiting(),
    {
        if self.forget_timer(destination) {
            let ghost before = self@;
            self.timer_commands.push(TimerCommand::Cancel(destination));
            assert(self@.queues == before.queues);
            assert(self@.outgoing == before.outgoing);
        }
    }

    /// Carries out an action of the state machine of `destination`.
    fn handle_action(&mut self, destination: AddressSpecification, action: DeviceQueueAction)
        requires
            old(self).wf(),
        ensures
            final(self).wf(),
            final(self)@ == old(self)@.handle_action(destination, action@),
            final(self).waiting() == (old(self).waiting() && !(action@ is StopTimerStartSend)),
    {
        match action {
            DeviceQueueAction::StartTimer(d) => {
                let mut running = false;
                let mut i: usize = 0;
                while i < self.running_timers.len()
                    invariant
                        self.wf(),
                        self@ == old(self)@,
                        self.waiting() == old(self).waiting(),
                        i <= self@.running_timers.len(),
                        running == (exists|j: int| 0 <= j < i && self@.running_timers[j] == destination),
                    decreases self@.running_timers.len() - i,
                {
                    if self.running_timers[i] == destination {
                        running = true;
                    }
                    i = i + 1;
                }
                let ghost before = self@;
                if running {
                    self.timer_commands.push(TimerCommand::Reset(destination, d));
                } else {
                    proof {
                        let t = before.running_timers;
                        assert(!t.contains(destination));
                    }
                    self.running_timers.push(destination);
                    self.timer_commands.push(TimerCommand::Start(destination, d));
                    proof {
                        let t = before.running_timers;
                        let r = self@.running_timers;
                        assert(r =~= t.push(destination));
                        assert forall|a: int, b: int| 0 <= a < b < r.len() implies r[a] != r[b] by {
                            if b == t.len() {
                                assert(t.contains(t[a]));
                            }
                        }
                    }
                }
                assert(self@.queues == before.queues);
                assert(self@.outgoing == before.outgoing);
            },
            DeviceQueueAction::StopTimer() => self.stop_timer(destination),
            DeviceQueueAction::StopTimerStartSend(frame) => {
                self.stop_timer(destination);
                let ghost before = self@;
                let ghost f = frame@;
                self.outgoing.push((destination, frame));
                self.stream_waker.wake();
                assert(self@.outgoing =~= before.outgoing.push((destination, f)));
                assert(self@.queues == before.queues);
            },
        }
    }

    /// An event for `destination`.
    fn update_and_handle_action(&mut self, destination: AddressSpecification, input: Input) -> (r: Settlement)
        requires
            old(self).wf(),
        ensures
            final(self).wf(),
            final(self)@ == old(self)@.update(destination, input@),
            final(self).waiting() == (old(self).waiting() && final(self)@.outgoing.len() == old(self)@.outgoing.len()),
            final(self)@.outgoing.len() >= old(self)@.outgoing.len(),
            r == settled_with(
                channels_for(old(self).device_queues(), destination),
                input_outcome(state_of(old(self)@.queues, destination), input@),
            ),
    {
        let ghost s0 = self@;
        let ghost e0 = self.queues@;
        let ghost iv = input@;
        let current = match self.find(destination) {
            Some(i) => {
                proof {
                    lemma_remove_keeps_distinct(self@.queues, i as int);
                }
                let (_, q) = self.queues.remove(i);
                assert(self@.queues =~= s0.queues.remove(i as int));
                assert(q == e0[i as int].1);
                q
            },
            None => DeviceQueue::Idle,
        };
        let ghost rest = self@.queues;
        let (next, action, settled) = apply(current, input);
        if next.is_idle() {
            self.flushed.push(destination);
            assert(self@.queues == rest);
        } else {
            proof {
                assert forall|j: int| 0 <= j < rest.len() implies rest[j].0 != destination by {
                    if position_of(s0.queues, destination) is None {
                        if rest[j].0 == destination {
                            assert(rest[j] == s0.queues[j]);
                        }
                    } else {
                        let i = position_of(s0.queues, destination)->Some_0;
                        let j2 = if j < i { j } else { j + 1 };
                        assert(rest[j] == s0.queues[j2]);
                        if j2 < i {
                            assert(s0.queues[j2].0 != s0.queues[i].0);
                        } else {
                            assert(s0.queues[i].0 != s0.queues[j2].0);
                        }
                    }
                }
                lemma_push_keeps_distinct(rest, (destination, next@));
            }
            self.queues.push((destination, next));
            assert(self@.queues =~= rest.push((destination, next@)));
        }
        match action {
            Some(a) => self.handle_action(destination, a),
            None => {},
        }
        settled
    }

    /// Queues `frame` for its destination; the receiving half of its channel
    /// gets the outcome.
    pub fn enqueue(&mut self, frame: Frame, receiver_on_when_idle: bool) -> (r: oneshot::Receiver<Result<(), QueueError>>)
        requires
            old(self).wf(),
        ensures
            final(self).wf(),
            final(self)@ == old(self)@.update(
                frame.destination,
                InputView::Enqueue(queued_item(frame@, receiver_on_when_idle)),
            ),
            final(self).waiting() == (old(self).waiting() && final(self)@.outgoing.len() == old(self)@.outgoing.len()),
            final(self)@.outgoing.len() >= old(self)@.outgoing.len(),
    {
        let destination = frame.destination;
        let (item, receiver) = DeviceQueueItem::new(
            frame,
            receiver_on_when_idle,
            Some(duration_from_secs(DATA_REQUEST_WAIT_SECS)),
            RETRIES,
        );
        let _ = self.update_and_handle_action(destination, Input::Enqueue(item));
        receiver
    }

    /// An acknowledgement with sequence number `ack`, for every destination.
    /// Gives the frames it settles, each with its channel and the outcome
    /// to send on it.
    pub fn on_ack(&mut self, ack: u8) -> (r: Vec<
        (oneshot::Sender<Result<(), DeviceQueueError>>, Result<(), DeviceQueueError>),
    >)
        requires
            old(self).wf(),
        ensures
            final(self).wf(),
            final(self)@ == old(self)@.on_ack(ack),
            final(self).waiting() == (old(self).waiting() && final(self)@.outgoing.len() == old(self)@.outgoing.len()),
            final(self)@.outgoing.len() >= old(self)@.outgoing.len(),
            r@ == ack_settlements(old(self).device_queues(), ack),
    {
        let ghost s0 = self@;
        let ghost e0 = self.queues@;
        let mut actions: Vec<(AddressSpecification, DeviceQueueAction)> = Vec::new();
        let mut settled: Vec<(oneshot::Sender<Result<(), DeviceQueueError>>, Result<(), DeviceQueueError>)> = Vec::new();
        let mut i: usize = 0;
        while i < self.queues.len()
            invariant
                e0 == old(self).queues@,
                self.queues@.len() == e0.len(),
                forall|j: int| i <= j < e0.len() ==> #[trigger] self.queues@[j] == e0[j],
                settled@ == ack_settlements(e0.take(i as int), ack),
                self.waiting() == old(self).waiting(),
                self@.flushed == s0.flushed,
                self@.running_timers == s0.running_timers,
                self@.timer_commands == s0.timer_commands,
                self@.outgoing == s0.outgoing,
                self@.queues.len() == s0.queues.len(),
                i <= s0.queues.len(),
                forall|j: int| 0 <= j < i ==> #[trigger] self@.queues[j] == acked(s0.queues, ack)[j],
                forall|j: int| i <= j < s0.queues.len() ==> #[trigger] self@.queues[j] == s0.queues[j],
                actions_view(actions@) == ack_actions(s0.queues.take(i as int), ack),
            decreases s0.queues.len() - i,
        {
            let ghost before = self@.queues;
            let destination = self.queues[i].0;
            let mut q = DeviceQueue::Idle;
            core::mem::swap(&mut self.queues[i].1, &mut q);
            assert(q@ == before[i as int].1);
            assert(q == e0[i as int].1);
            let (next, action, done) = q.on_ack(ack);
            self.queues[i] = (destination, next);
            assert(e0.take(i as int + 1).drop_last() =~= e0.take(i as int));
            assert(e0.take(i as int + 1).last() == e0[i as int]);
            match done {
                Some(x) => settled.push(x),
                None => {},
            }
            assert(s0.queues.take(i as int + 1).drop_last() =~= s0.queues.take(i as int));
            assert(s0.queues.take(i as int + 1).last() == s0.queues[i as int]);
            match action {
                Some(a) => {
                    let ghost av = a@;
                    actions.push((destination, a));
                    assert(actions_view(actions@) =~= ack_actions(s0.queues.take(i as int), ack).push((destination, av)));
                },
                None => {},
            }
            assert(self@.queues =~= before.update(i as int, (destination, before[i as int].1.on_ack(ack).0)));
            i = i + 1;
        }
        assert(self@.queues =~= acked(s0.queues, ack));
        assert(s0.queues.take(s0.queues.len() as int) =~= s0.queues);
        let ghost all = self@.queues;
        let mut kept: Vec<(AddressSpecification, DeviceQueue)> = Vec::new();
        let mut old_queues: Vec<(AddressSpecification, DeviceQueue)> = Vec::new();
        core::mem::swap(&mut old_queues, &mut self.queues);
        assert(pairs_view(old_queues@) == all);
        while old_queues.len() > 0
            invariant
                self.waiting() == old(self).waiting(),
                self@.outgoing == s0.outgoing,
                pairs_view(old_queues@) == all.skip(
                    all.len() - old_queues@.len(),
                ),
                old_queues@.len() <= all.len(),
                pairs_view(kept@) == all.take(
                    all.len() - old_queues@.len(),
                ).filter(busy()),
            decreases old_queues@.len(),
        {
            let ghost k = all.len() - old_queues@.len();
            let ghost ov = old_queues@;
            let entry = old_queues.remove(0);
            proof {
                reveal_with_fuel(Seq::filter, 1);
                assert(all.take(k + 1).drop_last() =~= all.take(k));
                assert(pairs_view(ov)[0] == (ov[0].0, ov[0].1@));
                assert(all.skip(k)[0] == all[k]);
                assert(all[k] == (ov[0].0, ov[0].1@));
                assert(pairs_view(old_queues@) =~= pairs_view(ov).drop_first());
                assert(all.skip(k).drop_first() =~= all.skip(k + 1));
            }
            if !entry.1.is_idle() {
                let ghost ev = (entry.0, entry.1@);
                kept.push(entry);
                assert(pairs_view(kept@) =~= all.take(k + 1).filter(busy()));
            } else {
                assert(pairs_view(kept@) =~= all.take(k + 1).filter(busy()));
            }
        }
        assert(all.take(all.len() as int) =~= all);
        self.queues = kept;
        proof {
            assert forall|a: int, b: int| 0 <= a < b < all.len() implies #[trigger] all[a].0 != #[trigger] all[b].0 by {
                assert(all[a].0 == s0.queues[a].0 && all[b].0 == s0.queues[b].0);
            }
            lemma_filter_keeps_distinct(all, busy());
        }
        let ghost base = self@;
        let ghost acts = actions_view(actions@);
        assert(base == QueueView { queues: acked(s0.queues, ack).filter(busy()), ..s0 });
        while actions.len() > 0
            invariant
                self.wf(),
                handle_all(self@, actions_view(actions@)) == handle_all(base, acts),
                self.waiting() == (old(self).waiting() && self@.outgoing.len() == s0.outgoing.len()),
                self@.outgoing.len() >= s0.outgoing.len(),
            decreases actions@.len(),
        {
            let ghost av = actions_view(actions@);
            let (destination, action) = actions.remove(0);
            assert(actions_view(actions@) =~= av.drop_first());
            self.handle_action(destination, action);
        }
        assert(e0.take(e0.len() as int) =~= e0);
        settled
    }

    /// The timer of `destination` ran out. Gives the frame it settles, if
    /// any, with its channel and the outcome to send on it.
    pub fn on_timer(&mut self, destination: AddressSpecification) -> (r: Settlement)
        requires
            old(self).wf(),
        ensures
            final(self).wf(),
            final(self)@ == old(self)@.on_timer(destination),
            final(self).waiting() == (old(self).waiting() && final(self)@.outgoing.len() == old(self)@.outgoing.len()),
            final(self)@.outgoing.len() >= old(self)@.outgoing.len(),
            r == settled_with(
                channels_for(old(self).device_queues(), destination),
                state_of(old(self)@.queues, destination).timer_outcome(),
            ),
    {
        self.forget_timer(destination);
        self.update_and_handle_action(destination, Input::Timer)
    }

    /// The send result of the frame sent to `destination`. Gives the frame
    /// it settles, if any, with its channel and the outcome to send on it.
    pub fn on_send_result(&mut self, destination: AddressSpecification, success: bool) -> (r: Settlement)
        requires
            old(self).wf(),
        ensures
            final(self).wf(),
            final(self)@ == old(self)@.update(destination, InputView::SendResult(success)),
            final(self).waiting() == (old(self).waiting() && final(self)@.outgoing.len() == old(self)@.outgoing.len()),
            final(self)@.outgoing.len() >= old(self)@.outgoing.len(),
            r == settled_with(
                channels_for(old(self).device_queues(), destination),
                state_of(old(self)@.queues, destination).send_result_outcome(success),
            ),
    {
        self.update_and_handle_action(destination, Input::SendResult(success))
    }

    /// `destination` asked for its data; returns whether data is still
    /// pending for it.
    pub fn on_data_request(&mut self, destination: AddressSpecification) -> (r: bool)
        requires
            old(self).wf(),
        ensures
            final(self).wf(),
            final(self)@ == old(self)@.update(destination, InputView::DataRequest),
            final(self).waiting() == (old(self).waiting() && final(self)@.outgoing.len() == old(self)@.outgoing.len()),
            final(self)@.outgoing.len() >= old(self)@.outgoing.len(),
            r == match position_of(final(self)@.queues, destination) {
                Some(i) => !(final(self)@.queues[i].1 is Idle),
                None => false,
            },
    {
        let _ = self.update_and_handle_action(destination, Input::DataRequest);
        match self.find(destination) {
            Some(i) => {
                assert(self@.queues[i as int].1 == self.queues@[i as int].1@);
                !self.queues[i].1.is_idle()
            },
            None => false,
        }
    }

    /// The next event: the oldest frame to send, then the oldest flushed
    /// destination that is not busy again. The task polling is kept to be
    /// woken when a frame is queued to be sent.
    pub fn poll_event(&mut self, cx: &mut Context) -> (r: Option<QueueEvent>)
        requires
            old(self).wf(),
        ensures
            final(self).wf(),
            ({
                let (s, e) = old(self)@.poll_event();
                &&& final(self)@ == s
                &&& match e {
                    Some(x) => r matches Some(y) && y@ == x,
                    None => r is None,
                }
            }),
            final(self).waiting(),
    {
        self.stream_waker.set(cx);
        if self.outgoing.len() > 0 {
            let ghost before = self@;
            let (destination, frame) = self.outgoing.remove(0);
            assert(self@.outgoing =~= before.outgoing.drop_first());
            assert(self@.queues == before.queues);
            return Some(QueueEvent::OutgoingFrame(destination, frame));
        }
        while self.flushed.len() > 0
            invariant
                self.wf(),
                self.waiting(),
                self@.outgoing.len() == 0,
                old(self)@.poll_event().0 == self@.next_flushed().0,
                old(self)@.poll_event().1 == match self@.next_flushed().1 {
                    Some(d) => Some(QueueEventView::QueueFlushed(d)),
                    None => None::<QueueEventView>,
                },
            decreases self@.flushed.len(),
        {
            let ghost before = self@;
            let flushed = self.flushed.remove(0);
            assert(self@.flushed =~= before.flushed.drop_first());
            assert(self@.queues == before.queues);
            assert(self@.outgoing == before.outgoing);
            if self.find(flushed).is_none() {
                return Some(QueueEvent::QueueFlushed(flushed));
            }
        }
        None
    }

    /// Hands out the timer commands not handed out yet, oldest first.
    pub fn take_timer_commands(&mut self) -> (r: Vec<TimerCommand>)
        requires
            old(self).wf(),
        ensures
            final(self).wf(),
            r@ == old(self)@.timer_commands,
            final(self)@ == (QueueView { timer_commands: Seq::empty(), ..old(self)@ }),
    {
        let mut commands: Vec<TimerCommand> = Vec::new();
        core::mem::swap(&mut commands, &mut self.timer_commands);
        assert(self@.timer_commands =~= Seq::<TimerCommand>::empty());
        commands
    }
}

} // verus!
