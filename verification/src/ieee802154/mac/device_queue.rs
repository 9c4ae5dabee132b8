//! The queue of frames for one device as a state machine: each event (a
//! frame queued, a timer run out, a data request, a send result, an
//! acknowledgement) gives the next state and at most one action for the
//! caller; a frame that is done is handed back with its channel and its
//! outcome, for the caller to send.
use crate::ieee802154::mac::frame::{Frame, FrameView};
use futures::channel::oneshot;
use std::collections::VecDeque;
use std::time::Duration;
use vstd::prelude::*;

verus! {

/// The sending half of `futures`' one-shot channels.
#[verifier::external_type_specification]
#[verifier::external_body]
#[verifier::reject_recursive_types(T)]
pub struct ExOneshotSender<T>(oneshot::Sender<T>);

/// The receiving half of `futures`' one-shot channels.
#[verifier::external_type_specification]
#[verifier::external_body]
#[verifier::reject_recursive_types(T)]
pub struct ExOneshotReceiver<T>(oneshot::Receiver<T>);

/// Calls `futures::channel::oneshot::channel`: a new channel, its two
/// halves.
#[verifier::external_body]
fn oneshot_channel<T>() -> (r: (oneshot::Sender<T>, oneshot::Receiver<T>)) {
    oneshot::channel()
}

/// What `std::time::Duration::from_millis` returns for `millis`.
pub uninterp spec fn duration_of_millis(millis: u64) -> Duration;

/// Calls `std::time::Duration::from_millis`, which depends on its argument
/// alone.
#[verifier::external_body]
fn duration_from_millis(millis: u64) -> (r: Duration)
    ensures
        r == duration_of_millis(millis),
{
    Duration::from_millis(millis)
}

/// How long an acknowledgement is waited for.
pub const ACK_WAIT_MILLIS: u64 = 250;

/// Why a queued frame was not delivered.
#[derive(Debug, Clone, Copy, PartialEq, Eq, Structural)]
pub enum DeviceQueueError {
    /// The device did not ask for its data within the time allowed.
    DataRequestTimeout,
    /// Sending was tried as often as allowed.
    RetryLimitReached,
    /// The channel of the frame was dropped.
    ChannelDropped,
}

/// What the caller of an event is to do.
#[derive(Debug)]
pub enum DeviceQueueAction {
    /// Start a timer; when it runs out, call `on_timer`.
    StartTimer(Duration),
    /// Stop any timer started.
    StopTimer(),
    /// Stop any timer started and send the frame; then call
    /// `on_send_result`.
    StopTimerStartSend(Frame),
}

/// A frame queued for a device, with how it is to be sent and the channel
/// its outcome goes to.
#[derive(Debug)]
pub struct DeviceQueueItem {
    frame: Frame,
    wait_for_datarequest: bool,
    max_wait_for_datarequest: Option<Duration>,
    retries: usize,
    callback: oneshot::Sender<Result<(), DeviceQueueError>>,
}

/// A queued frame, viewed without its channel.
pub struct ItemView {
    pub frame: FrameView,
    pub wait_for_datarequest: bool,
    pub max_wait_for_datarequest: Option<Duration>,
    pub retries: usize,
}

impl View for DeviceQueueItem {
    type V = ItemView;

    closed spec fn view(&self) -> ItemView {
        ItemView {
            frame: self.frame@,
            wait_for_datarequest: self.wait_for_datarequest,
            max_wait_for_datarequest: self.max_wait_for_datarequest,
            retries: self.retries,
        }
    }
}

impl DeviceQueueItem {
    /// The channel the outcome of the frame goes to.
    pub closed spec fn channel(&self) -> oneshot::Sender<Result<(), DeviceQueueError>> {
        self.callback
    }

    /// A frame to queue: one for a device whose receiver is off when idle
    /// waits until the device asks for it (for at most the time given);
    /// `retries` more tries are allowed. The receiving half of its channel
    /// gets the outcome.
    pub fn new(
        frame: Frame,
        receiver_on_when_idle: bool,
        max_wait_for_datarequest: Option<Duration>,
        retries: usize,
    ) -> (r: (DeviceQueueItem, oneshot::Receiver<Result<(), DeviceQueueError>>))
        ensures
            r.0@ == (ItemView {
                frame: frame@,
                wait_for_datarequest: !receiver_on_when_idle,
                max_wait_for_datarequest,
                retries,
            }),
    {
        let (sender, receiver) = oneshot_channel();
        (
            DeviceQueueItem {
                frame,
                wait_for_datarequest: !receiver_on_when_idle,
                max_wait_for_datarequest,
                retries,
                callback: sender,
            },
            receiver,
        )
    }
}

/// A frame that is done: its channel, and the outcome to send on it.
fn settlement(item: DeviceQueueItem, result: Result<(), DeviceQueueError>) -> (r: (
    oneshot::Sender<Result<(), DeviceQueueError>>,
    Result<(), DeviceQueueError>,
))
    ensures
        r == (item.channel(), result),
{
    (item.callback, result)
}

/// The outcome a frame is settled with, when an event settles one.
pub type Outcome = Option<Result<(), DeviceQueueError>>;

/// A frame that is done, handed back by an event: the channel of the frame
/// and the outcome the caller is to send on it.
pub type Settlement = Option<(oneshot::Sender<Result<(), DeviceQueueError>>, Result<(), DeviceQueueError>)>;

/// The settlement of the front frame among `channels` with `outcome`.
pub open spec fn settled_with(
    channels: Seq<oneshot::Sender<Result<(), DeviceQueueError>>>,
    outcome: Outcome,
) -> Settlement {
    match outcome {
        Some(x) => Some((channels[0], x)),
        None => None,
    }
}

/// What the receiving half of a frame's channel gives: the outcome sent, or
/// the channel dropped when the sending half went away unused.
pub fn outcome_of(received: Result<Result<(), DeviceQueueError>, oneshot::Canceled>) -> (r: Result<(), DeviceQueueError>)
    ensures
        match received {
            Ok(x) => r == x,
            Err(_) => r == Err::<(), DeviceQueueError>(DeviceQueueError::ChannelDropped),
        },
{
    match received {
        Ok(x) => x,
        Err(_) => Err(DeviceQueueError::ChannelDropped),
    }
}

/// The channels of a list of queued frames.
pub open spec fn channels_of(items: Seq<DeviceQueueItem>) -> Seq<oneshot::Sender<Result<(), DeviceQueueError>>> {
    items.map_values(|i: DeviceQueueItem| i.channel())
}

/// The channels of the frames a queue holds, front first.
pub open spec fn channels(q: DeviceQueue) -> Seq<oneshot::Sender<Result<(), DeviceQueueError>>> {
    match q {
        DeviceQueue::Idle => Seq::empty(),
        DeviceQueue::WaitingForDataRequest { front, queue } => seq![front.channel()] + channels_of(queue@),
        DeviceQueue::SendStarted { front, queue, .. } => seq![front.channel()] + channels_of(queue@),
        DeviceQueue::WaitingForAck { front, queue, .. } => seq![front.channel()] + channels_of(queue@),
    }
}

/// The channels still held after an event: all of them, or all but the
/// front one when the front frame was settled.
pub open spec fn channels_after(
    before: Seq<oneshot::Sender<Result<(), DeviceQueueError>>>,
    settled: Outcome,
) -> Seq<oneshot::Sender<Result<(), DeviceQueueError>>> {
    if settled is Some {
        before.drop_first()
    } else {
        before
    }
}

/// The outcome of a failed try of `front`: the retry limit once no try is
/// left, none while it is tried again.
pub open spec fn retry_outcome(front: ItemView) -> Outcome {
    if front.retries < 1 {
        Some(Err(DeviceQueueError::RetryLimitReached))
    } else {
        None
    }
}

/// The states of a device queue.
#[derive(Debug)]
pub enum DeviceQueue {
    /// No frame is queued.
    Idle,
    /// The front frame waits until the device asks for its data.
    WaitingForDataRequest { front: DeviceQueueItem, queue: VecDeque<DeviceQueueItem> },
    /// The front frame is being sent; after that, its acknowledgement may
    /// still be awaited.
    SendStarted { front: DeviceQueueItem, queue: VecDeque<DeviceQueueItem>, wait_for_ack: Option<u8> },
    /// The front frame was sent and its acknowledgement is awaited.
    WaitingForAck { front: DeviceQueueItem, queue: VecDeque<DeviceQueueItem>, wait_for_ack: u8 },
}

/// A device queue, viewed.
pub enum DeviceQueueView {
    Idle,
    WaitingForDataRequest { front: ItemView, queue: Seq<ItemView> },
    SendStarted { front: ItemView, queue: Seq<ItemView>, wait_for_ack: Option<u8> },
    WaitingForAck { front: ItemView, queue: Seq<ItemView>, wait_for_ack: u8 },
}

/// The view of a list of queued frames.
pub open spec fn items_view(items: Seq<DeviceQueueItem>) -> Seq<ItemView> {
    items.map_values(|i: DeviceQueueItem| i@)
}

impl View for DeviceQueue {
    type V = DeviceQueueView;

    open spec fn view(&self) -> DeviceQueueView {
        match self {
            DeviceQueue::Idle => DeviceQueueView::Idle,
            DeviceQueue::WaitingForDataRequest { front, queue } => DeviceQueueView::WaitingForDataRequest {
                front: front@,
                queue: items_view(queue@),
            },
            DeviceQueue::SendStarted { front, queue, wait_for_ack } => DeviceQueueView::SendStarted {
                front: front@,
                queue: items_view(queue@),
                wait_for_ack: *wait_for_ack,
            },
            DeviceQueue::WaitingForAck { front, queue, wait_for_ack } => DeviceQueueView::WaitingForAck {
                front: front@,
                queue: items_view(queue@),
                wait_for_ack: *wait_for_ack,
            },
        }
    }
}

/// An action, with its frame viewed.
pub enum DeviceQueueActionView {
    StartTimer(Duration),
    StopTimer,
    StopTimerStartSend(FrameView),
}

impl View for DeviceQueueAction {
    type V = DeviceQueueActionView;

    open spec fn view(&self) -> DeviceQueueActionView {
        match self {
            DeviceQueueAction::StartTimer(d) => DeviceQueueActionView::StartTimer(*d),
            DeviceQueueAction::StopTimer() => DeviceQueueActionView::StopTimer,
            DeviceQueueAction::StopTimerStartSend(f) => DeviceQueueActionView::StopTimerStartSend(f@),
        }
    }
}

/// The view of an optional action.
pub open spec fn action_view(a: Option<DeviceQueueAction>) -> Option<DeviceQueueActionView> {
    match a {
        Some(x) => Some(x@),
        None => None,
    }
}

/// The sequence number the acknowledgement of a frame will carry, if it asks
/// for one.
pub open spec fn expected_ack(f: FrameView) -> Option<u8> {
    if f.acknowledge_request {
        f.sequence_number
    } else {
        None
    }
}

/// Starting on a front frame: sent at once unless it waits for a data
/// request, for which a timer is started when the wait is bounded.
pub open spec fn start_send_spec(front: ItemView, queue: Seq<ItemView>) -> (DeviceQueueView, Option<DeviceQueueActionView>) {
    if !front.wait_for_datarequest {
        (
            DeviceQueueView::SendStarted { front, queue, wait_for_ack: expected_ack(front.frame) },
            Some(DeviceQueueActionView::StopTimerStartSend(front.frame)),
        )
    } else {
        (
            DeviceQueueView::WaitingForDataRequest { front, queue },
            match front.max_wait_for_datarequest {
                Some(d) => Some(DeviceQueueActionView::StartTimer(d)),
                None => None,
            },
        )
    }
}

/// Going on with the next frame, or idle with the timer stopped.
pub open spec fn restart_spec(queue: Seq<ItemView>) -> (DeviceQueueView, Option<DeviceQueueActionView>) {
    if queue.len() > 0 {
        start_send_spec(queue[0], queue.drop_first())
    } else {
        (DeviceQueueView::Idle, Some(DeviceQueueActionView::StopTimer))
    }
}

/// Trying the front frame again with one try less, or giving up on it (it
/// fails with the retry limit reached) when none is left.
pub open spec fn retry_spec(front: ItemView, queue: Seq<ItemView>) -> (DeviceQueueView, Option<DeviceQueueActionView>) {
    if front.retries < 1 {
        restart_spec(queue)
    } else {
        start_send_spec(ItemView { retries: (front.retries - 1) as usize, ..front }, queue)
    }
}

impl DeviceQueueView {
    /// Queueing a frame: an idle queue starts on it, any other puts it last.
    pub open spec fn enqueue(self, item: ItemView) -> (DeviceQueueView, Option<DeviceQueueActionView>) {
        match self {
            DeviceQueueView::Idle => start_send_spec(item, Seq::empty()),
            DeviceQueueView::WaitingForDataRequest { front, queue } => (
                DeviceQueueView::WaitingForDataRequest { front, queue: queue.push(item) },
                None,
            ),
            DeviceQueueView::SendStarted { front, queue, wait_for_ack } => (
                DeviceQueueView::SendStarted { front, queue: queue.push(item), wait_for_ack },
                None,
            ),
            DeviceQueueView::WaitingForAck { front, queue, wait_for_ack } => (
                DeviceQueueView::WaitingForAck { front, queue: queue.push(item), wait_for_ack },
                None,
            ),
        }
    }

    /// A timer ran out: a frame waiting for its data request fails (the
    /// device did not ask in time), one waiting for its acknowledgement is
    /// tried again; in other states the timer is not expected.
    pub open spec fn on_timer(self) -> (DeviceQueueView, Option<DeviceQueueActionView>) {
        match self {
            DeviceQueueView::WaitingForDataRequest { front, queue } => restart_spec(queue),
            DeviceQueueView::WaitingForAck { front, queue, .. } => retry_spec(front, queue),
            _ => (self, None),
        }
    }

    /// The device asked for its data: a frame waiting for it is sent.
    pub open spec fn on_data_request(self) -> (DeviceQueueView, Option<DeviceQueueActionView>) {
        match self {
            DeviceQueueView::WaitingForDataRequest { front, queue } => (
                DeviceQueueView::SendStarted { front, queue, wait_for_ack: expected_ack(front.frame) },
                Some(DeviceQueueActionView::StopTimerStartSend(front.frame)),
            ),
            _ => (self, None),
        }
    }

    /// The send result of the front frame: a failure tries again; a success
    /// waits for the acknowledgement when one is still expected (with a
    /// timer), or else the frame succeeded.
    pub open spec fn on_send_result(self, success: bool) -> (DeviceQueueView, Option<DeviceQueueActionView>) {
        match self {
            DeviceQueueView::SendStarted { front, queue, wait_for_ack } => if !success {
                retry_spec(front, queue)
            } else {
                match wait_for_ack {
                    Some(n) => (
                        DeviceQueueView::WaitingForAck { front, queue, wait_for_ack: n },
                        Some(DeviceQueueActionView::StartTimer(duration_of_millis(ACK_WAIT_MILLIS))),
                    ),
                    None => restart_spec(queue),
                }
            },
            _ => (self, None),
        }
    }

    /// An acknowledgement with sequence number `ack`: while sending, the
    /// awaited acknowledgement came early and is no longer awaited; while
    /// waiting for it, the frame succeeded.
    pub open spec fn on_ack(self, ack: u8) -> (DeviceQueueView, Option<DeviceQueueActionView>) {
        match self {
            DeviceQueueView::SendStarted { front, queue, wait_for_ack } => (
                DeviceQueueView::SendStarted {
                    front,
                    queue,
                    wait_for_ack: if wait_for_ack == Some(ack) {
                        None
                    } else {
                        wait_for_ack
                    },
                },
                None,
            ),
            DeviceQueueView::WaitingForAck { front, queue, wait_for_ack } => if wait_for_ack == ack {
                restart_spec(queue)
            } else {
                (self, None)
            },
            _ => (self, None),
        }
    }
}

impl DeviceQueueView {
    /// What a timer running out settles the front frame with: a frame that
    /// waited for its data request times out; one that waited for its
    /// acknowledgement fails as a try.
    pub open spec fn timer_outcome(self) -> Outcome {
        match self {
            DeviceQueueView::WaitingForDataRequest { .. } => Some(Err(DeviceQueueError::DataRequestTimeout)),
            DeviceQueueView::WaitingForAck { front, .. } => retry_outcome(front),
            _ => None,
        }
    }

    /// What a send result settles the front frame with: a success that needs
    /// no acknowledgement succeeds; a failure fails as a try.
    pub open spec fn send_result_outcome(self, success: bool) -> Outcome {
        match self {
            DeviceQueueView::SendStarted { front, wait_for_ack, .. } => if !success {
                retry_outcome(front)
            } else if wait_for_ack is None {
                Some(Ok(()))
            } else {
                None
            },
            _ => None,
        }
    }

    /// What an acknowledgement settles the front frame with: the awaited one
    /// makes it succeed.
    pub open spec fn ack_outcome(self, ack: u8) -> Outcome {
        match self {
            DeviceQueueView::WaitingForAck { wait_for_ack, .. } => if wait_for_ack == ack {
                Some(Ok(()))
            } else {
                None
            },
            _ => None,
        }
    }
}

/// The number of frames a queue holds.
pub open spec fn frames_held(v: DeviceQueueView) -> nat {
    match v {
        DeviceQueueView::Idle => 0,
        DeviceQueueView::WaitingForDataRequest { queue, .. } => queue.len() + 1,
        DeviceQueueView::SendStarted { queue, .. } => queue.len() + 1,
        DeviceQueueView::WaitingForAck { queue, .. } => queue.len() + 1,
    }
}

proof fn lemma_restart_drops_one(queue: Seq<ItemView>)
    ensures
        frames_held(restart_spec(queue).0) == queue.len(),
{
}

/// Queueing a frame adds exactly one frame; every other event keeps the
/// frames or settles and drops exactly one of them.
pub proof fn lemma_frames_move_one_at_a_time(v: DeviceQueueView, item: ItemView, success: bool, ack: u8)
    ensures
        frames_held(v.enqueue(item).0) == frames_held(v) + 1,
        frames_held(v.on_timer().0) == frames_held(v) || frames_held(v.on_timer().0) + 1 == frames_held(v),
        frames_held(v.on_data_request().0) == frames_held(v),
        frames_held(v.on_send_result(success).0) == frames_held(v) || frames_held(v.on_send_result(success).0) + 1
            == frames_held(v),
        frames_held(v.on_ack(ack).0) == frames_held(v) || frames_held(v.on_ack(ack).0) + 1 == frames_held(v),
{
    match v {
        DeviceQueueView::Idle => {},
        DeviceQueueView::WaitingForDataRequest { front, queue } => {
            lemma_restart_drops_one(queue);
        },
        DeviceQueueView::SendStarted { front, queue, .. } => {
            lemma_restart_drops_one(queue);
        },
        DeviceQueueView::WaitingForAck { front, queue, .. } => {
            lemma_restart_drops_one(queue);
        },
    }
}

/// The state after `k` failed sends in a row.
pub open spec fn failed_sends(v: DeviceQueueView, k: nat) -> DeviceQueueView
    decreases k,
{
    if k == 0 {
        v
    } else {
        failed_sends(v.on_send_result(false).0, (k - 1) as nat)
    }
}

/// The front frame being sent with `tries` more tries left.
pub open spec fn resent(front: ItemView, queue: Seq<ItemView>, tries: int) -> DeviceQueueView {
    DeviceQueueView::SendStarted {
        front: ItemView { retries: tries as usize, ..front },
        queue,
        wait_for_ack: expected_ack(front.frame),
    }
}

/// A frame with `n` more tries allowed is sent `n + 1` times: each of the
/// first `n` failed sends starts it again with one try less and settles
/// nothing, and the next failure settles it with the retry limit (with no
/// retry allowed, the first failure does).
pub proof fn lemma_retries_run_out(front: ItemView, queue: Seq<ItemView>, wait_for_ack: Option<u8>, k: nat)
    requires
        !front.wait_for_datarequest,
        k <= front.retries,
    ensures
        k >= 1 ==> failed_sends(sending(front, queue, wait_for_ack), k) == resent(front, queue, front.retries - k),
        failed_sends(sending(front, queue, wait_for_ack), k).send_result_outcome(false) == retry_limit_if(
            k == front.retries,
        ),
    decreases k,
{
    let v = sending(front, queue, wait_for_ack);
    if k == 0 {
        assert(failed_sends(v, 0) == v);
    } else {
        lemma_failed_sends_last(v, (k - 1) as nat);
        lemma_retries_run_out(front, queue, wait_for_ack, (k - 1) as nat);
        if k > 1 {
            lemma_resend_step(front, queue, front.retries - (k - 1));
        } else {
            assert(failed_sends(v, 0) == v);
            assert(v.on_send_result(false).0 == resent(front, queue, front.retries - 1));
        }
        lemma_resend_outcome(front, queue, front.retries - k);
    }
}

/// An acknowledgement that does not come in time counts as a failed send:
/// the frame is tried again or settled with the retry limit, as after a
/// failed send.
pub proof fn lemma_ack_timeout_is_failed_send(front: ItemView, queue: Seq<ItemView>, ack: u8, wait_for_ack: Option<u8>)
    ensures
        awaiting_ack(front, queue, ack).on_timer() == sending(front, queue, wait_for_ack).on_send_result(false),
        awaiting_ack(front, queue, ack).timer_outcome() == sending(front, queue, wait_for_ack).send_result_outcome(
            false,
        ),
{
}

/// The front frame sent, its acknowledgement `ack` awaited.
pub open spec fn awaiting_ack(front: ItemView, queue: Seq<ItemView>, ack: u8) -> DeviceQueueView {
    DeviceQueueView::WaitingForAck { front, queue, wait_for_ack: ack }
}

/// Settling with the retry limit when `limit`, else nothing.
pub open spec fn retry_limit_if(limit: bool) -> Outcome {
    if limit {
        Some(Err(DeviceQueueError::RetryLimitReached))
    } else {
        None
    }
}

/// A failed send of a frame with tries left starts it again with one less.
proof fn lemma_resend_step(front: ItemView, queue: Seq<ItemView>, tries: int)
    requires
        !front.wait_for_datarequest,
        1 <= tries <= front.retries,
    ensures
        resent(front, queue, tries).on_send_result(false).0 == resent(front, queue, tries - 1),
        resent(front, queue, tries).send_result_outcome(false) is None,
{
    let f1 = ItemView { retries: tries as usize, ..front };
    let f2 = ItemView { retries: (f1.retries - 1) as usize, ..f1 };
    assert(f2 == ItemView { retries: (tries - 1) as usize, ..front });
}

/// What a failed send of the resent frame settles it with.
proof fn lemma_resend_outcome(front: ItemView, queue: Seq<ItemView>, tries: int)
    requires
        0 <= tries <= front.retries,
    ensures
        resent(front, queue, tries).send_result_outcome(false) == retry_outcome(
            ItemView { retries: tries as usize, ..front },
        ),
{
}

/// The front frame being sent, awaiting `wait_for_ack`.
pub open spec fn sending(front: ItemView, queue: Seq<ItemView>, wait_for_ack: Option<u8>) -> DeviceQueueView {
    DeviceQueueView::SendStarted { front, queue, wait_for_ack }
}

/// One more failed send after `k` of them.
proof fn lemma_failed_sends_last(v: DeviceQueueView, k: nat)
    ensures
        failed_sends(v, k + 1) == failed_sends(v, k).on_send_result(false).0,
    decreases k,
{
    if k > 0 {
        lemma_failed_sends_last(v.on_send_result(false).0, (k - 1) as nat);
        assert(failed_sends(v, k + 1) == failed_sends(v.on_send_result(false).0, k));
        assert(failed_sends(v, k) == failed_sends(v.on_send_result(false).0, (k - 1) as nat));
    } else {
        assert(failed_sends(v, 1) == failed_sends(v.on_send_result(false).0, 0));
    }
}

impl Default for DeviceQueue {
    fn default() -> (r: Self)
        ensures
            r@ == DeviceQueueView::Idle,
    {
        DeviceQueue::Idle
    }
}

impl DeviceQueue {
    /// Whether no frame is queued.
    pub fn is_idle(&self) -> (r: bool)
        ensures
            r == (self@ is Idle),
    {
        match self {
            DeviceQueue::Idle => true,
            _ => false,
        }
    }

    /// Starts on `front`, with `queue` behind it. Nothing is settled: the
    /// queue holds every frame given, with its channel.
    pub fn start_send(front: DeviceQueueItem, queue: VecDeque<DeviceQueueItem>) -> (r: (Self, Option<DeviceQueueAction>))
        ensures
            (r.0@, action_view(r.1)) == start_send_spec(front@, items_view(queue@)),
            channels(r.0) == seq![front.channel()] + channels_of(queue@),
    {
        if !front.wait_for_datarequest {
            let frame = front.frame.clone();
            let wait_for_ack = front.frame.expect_ack();
            (DeviceQueue::SendStarted { front, queue, wait_for_ack }, Some(DeviceQueueAction::StopTimerStartSend(frame)))
        } else {
            let action = match front.max_wait_for_datarequest {
                Some(d) => Some(DeviceQueueAction::StartTimer(d)),
                None => None,
            };
            (DeviceQueue::WaitingForDataRequest { front, queue }, action)
        }
    }

    /// Goes on with the next frame of `queue`, or idles.
    fn restart_from_queue(queue: VecDeque<DeviceQueueItem>) -> (r: (Self, Option<DeviceQueueAction>))
        ensures
            (r.0@, action_view(r.1)) == restart_spec(items_view(queue@)),
            channels(r.0) == channels_of(queue@),
    {
        let mut queue = queue;
        if queue.len() > 0 {
            let ghost all = queue@;
            let front = queue.pop_front().unwrap();
            assert(items_view(queue@) =~= items_view(all).drop_first());
            assert(channels_of(all) =~= seq![front.channel()] + channels_of(queue@));
            DeviceQueue::start_send(front, queue)
        } else {
            assert(channels_of(queue@) =~= Seq::empty());
            (DeviceQueue::Idle, Some(DeviceQueueAction::StopTimer()))
        }
    }

    /// Tries `front` again, or settles it as failed when no try is left.
    fn retry_send(front: DeviceQueueItem, queue: VecDeque<DeviceQueueItem>) -> (r: (Self, Option<DeviceQueueAction>, Settlement))
        ensures
            (r.0@, action_view(r.1)) == retry_spec(front@, items_view(queue@)),
            r.2 == settled_with(seq![front.channel()] + channels_of(queue@), retry_outcome(front@)),
            channels(r.0) == channels_after(seq![front.channel()] + channels_of(queue@), retry_outcome(front@)),
    {
        let mut front = front;
        if front.retries < 1 {
            let done = settlement(front, Err(DeviceQueueError::RetryLimitReached));
            let (q, a) = DeviceQueue::restart_from_queue(queue);
            proof {
                let ghost c = channels_of(queue@);
                assert((seq![front.channel()] + c).drop_first() =~= c);
            }
            (q, a, Some(done))
        } else {
            front.retries = front.retries - 1;
            let (q, a) = DeviceQueue::start_send(front, queue);
            (q, a, None)
        }
    }

    /// A frame is queued; nothing is settled.
    pub fn enqueue(self, item: DeviceQueueItem) -> (r: (Self, Option<DeviceQueueAction>))
        ensures
            (r.0@, action_view(r.1)) == self@.enqueue(item@),
            channels(r.0) == channels(self).push(item.channel()),
    {
        match self {
            DeviceQueue::Idle => {
                let queue: VecDeque<DeviceQueueItem> = VecDeque::new();
                assert(items_view(queue@) =~= Seq::<ItemView>::empty());
                assert(channels_of(queue@) =~= Seq::empty());
                assert(seq![item.channel()] + channels_of(queue@) =~= Seq::empty().push(item.channel()));
                DeviceQueue::start_send(item, queue)
            },
            DeviceQueue::WaitingForDataRequest { front, mut queue } => {
                let ghost q = queue@;
                let ghost i = item@;
                let ghost c = item.channel();
                queue.push_back(item);
                assert(items_view(queue@) =~= items_view(q).push(i));
                assert(seq![front.channel()] + channels_of(queue@) =~= (seq![front.channel()] + channels_of(q)).push(c));
                (DeviceQueue::WaitingForDataRequest { front, queue }, None)
            },
            DeviceQueue::SendStarted { front, mut queue, wait_for_ack } => {
                let ghost q = queue@;
                let ghost i = item@;
                let ghost c = item.channel();
                queue.push_back(item);
                assert(items_view(queue@) =~= items_view(q).push(i));
                assert(seq![front.channel()] + channels_of(queue@) =~= (seq![front.channel()] + channels_of(q)).push(c));
                (DeviceQueue::SendStarted { front, queue, wait_for_ack }, None)
            },
            DeviceQueue::WaitingForAck { front, mut queue, wait_for_ack } => {
                let ghost q = queue@;
                let ghost i = item@;
                let ghost c = item.channel();
                queue.push_back(item);
                assert(items_view(queue@) =~= items_view(q).push(i));
                assert(seq![front.channel()] + channels_of(queue@) =~= (seq![front.channel()] + channels_of(q)).push(c));
                (DeviceQueue::WaitingForAck { front, queue, wait_for_ack }, None)
            },
        }
    }

    /// A timer ran out. The front frame is handed back, to be settled with the data request
    /// timeout when it waited for its data request, or with the retry limit
    /// when it waited for its acknowledgement and no try is left.
    pub fn on_timer(self) -> (r: (Self, Option<DeviceQueueAction>, Settlement))
        ensures
            (r.0@, action_view(r.1)) == self@.on_timer(),
            r.2 == settled_with(channels(self), self@.timer_outcome()),
            channels(r.0) == channels_after(channels(self), self@.timer_outcome()),
    {
        match self {
            DeviceQueue::WaitingForDataRequest { front, queue } => {
                let done = settlement(front, Err(DeviceQueueError::DataRequestTimeout));
                let (q, a) = DeviceQueue::restart_from_queue(queue);
                proof {
                    let ghost c = channels_of(queue@);
                    assert((seq![front.channel()] + c).drop_first() =~= c);
                }
                (q, a, Some(done))
            },
            DeviceQueue::WaitingForAck { front, queue, wait_for_ack: _ } => DeviceQueue::retry_send(front, queue),
            x => (x, None, None),
        }
    }

    /// The device asked for its data; nothing is settled.
    pub fn on_data_request(self) -> (r: (Self, Option<DeviceQueueAction>))
        ensures
            (r.0@, action_view(r.1)) == self@.on_data_request(),
            channels(r.0) == channels(self),
    {
        match self {
            DeviceQueue::WaitingForDataRequest { front, queue } => {
                let frame = front.frame.clone();
                let wait_for_ack = frame.expect_ack();
                (DeviceQueue::SendStarted { front, queue, wait_for_ack }, Some(DeviceQueueAction::StopTimerStartSend(frame)))
            },
            x => (x, None),
        }
    }

    /// The result of sending the front frame. It is handed back, to be
    /// settled as a success
    /// when it was sent and needs no acknowledgement, or with the retry
    /// limit when sending failed and no try is left.
    pub fn on_send_result(self, success: bool) -> (r: (Self, Option<DeviceQueueAction>, Settlement))
        ensures
            (r.0@, action_view(r.1)) == self@.on_send_result(success),
            r.2 == settled_with(channels(self), self@.send_result_outcome(success)),
            channels(r.0) == channels_after(channels(self), self@.send_result_outcome(success)),
    {
        match self {
            DeviceQueue::SendStarted { front, queue, wait_for_ack } => {
                if !success {
                    DeviceQueue::retry_send(front, queue)
                } else {
                    match wait_for_ack {
                        Some(n) => (
                            DeviceQueue::WaitingForAck { front, queue, wait_for_ack: n },
                            Some(DeviceQueueAction::StartTimer(duration_from_millis(ACK_WAIT_MILLIS))),
                            None,
                        ),
                        None => {
                            let done = settlement(front, Ok(()));
                            let (q, a) = DeviceQueue::restart_from_queue(queue);
                            proof {
                                let ghost c = channels_of(queue@);
                                assert((seq![front.channel()] + c).drop_first() =~= c);
                            }
                            (q, a, Some(done))
                        },
                    }
                }
            },
            x => (x, None, None),
        }
    }

    /// An acknowledgement with sequence number `ack`. The front frame is
    /// handed back, to be settled as a success when it waited for this acknowledgement.
    pub fn on_ack(self, ack: u8) -> (r: (Self, Option<DeviceQueueAction>, Settlement))
        ensures
            (r.0@, action_view(r.1)) == self@.on_ack(ack),
            r.2 == settled_with(channels(self), self@.ack_outcome(ack)),
            channels(r.0) == channels_after(channels(self), self@.ack_outcome(ack)),
    {
        match self {
            DeviceQueue::SendStarted { front, queue, wait_for_ack } => {
                let wait_for_ack = match wait_for_ack {
                    Some(n) => if n == ack {
                        None
                    } else {
                        Some(n)
                    },
                    None => None,
                };
                (DeviceQueue::SendStarted { front, queue, wait_for_ack }, None, None)
            },
            DeviceQueue::WaitingForAck { front, queue, wait_for_ack } => {
                if wait_for_ack == ack {
                    let done = settlement(front, Ok(()));
                    let (q, a) = DeviceQueue::restart_from_queue(queue);
                    proof {
                        let ghost c = channels_of(queue@);
                        assert((seq![front.channel()] + c).drop_first() =~= c);
                    }
                    (q, a, Some(done))
                } else {
                    (DeviceQueue::WaitingForAck { front, queue, wait_for_ack }, None, None)
                }
            },
            x => (x, None, None),
        }
    }
}

} // verus!
