//! The MAC queue: frames per destination, sent directly or kept until the
//! destination asks for them, with the radio's pending-data tables kept in
//! step with the destinations that have frames waiting.
use crate::ieee802154::mac::frame::{Address, AddressingMode, FrameType, FrameTypeView, FullAddress};
use crate::ieee802154::mac::pendingtable::{
    empty_table, lemma_insert_remove_effect, lemma_ops_keep_len, lemma_ops_keep_wf, table_wf, PendingTable,
    PendingTableView,
};
use crate::ieee802154::{ExtendedAddress, ShortAddress, PANID};
use crate::unique_key::UniqueKey;
use crate::waker_store::WakerStore;
use std::task::Context;
use std::collections::VecDeque;
use vstd::prelude::*;

verus! {

/// A frame to queue.
#[derive(Debug)]
pub struct MacQueueEntry {
    pub key: UniqueKey,
    pub destination: Option<FullAddress>,
    pub source_mode: AddressingMode,
    pub acknowledge_request: bool,
    /// Whether the frame waits until the destination asks for its data.
    pub indirect: bool,
    pub content: FrameType,
}

/// A queued frame, with its content viewed.
pub struct MacQueueEntryView {
    pub key: UniqueKey,
    pub destination: Option<FullAddress>,
    pub source_mode: AddressingMode,
    pub acknowledge_request: bool,
    pub indirect: bool,
    pub content: FrameTypeView,
}

impl View for MacQueueEntry {
    type V = MacQueueEntryView;

    open spec fn view(&self) -> MacQueueEntryView {
        MacQueueEntryView {
            key: self.key,
            destination: self.destination,
            source_mode: self.source_mode,
            acknowledge_request: self.acknowledge_request,
            indirect: self.indirect,
            content: self.content@,
        }
    }
}

impl Clone for MacQueueEntry {
    fn clone(&self) -> (r: Self)
        ensures
            r@ == self@,
    {
        MacQueueEntry {
            key: self.key,
            destination: self.destination,
            source_mode: self.source_mode,
            acknowledge_request: self.acknowledge_request,
            indirect: self.indirect,
            content: self.content.clone(),
        }
    }
}

/*=== The queue of one destination ===*/

/// The frames for one destination, and whether the front one was sent and
/// waits for its acknowledgement.
pub struct MacDeviceQueueView {
    pub queue: Seq<MacQueueEntryView>,
    pub waiting_for_ack: bool,
}

/// Whether the destination should be marked as having data pending: the
/// next frame to send waits to be asked for.
pub open spec fn destination_pending(q: MacDeviceQueueView) -> bool {
    if q.waiting_for_ack {
        q.queue.len() > 1 && q.queue[1].indirect
    } else {
        q.queue.len() > 0 && q.queue[0].indirect
    }
}

/// Whether a frame has another key than `key`.
pub open spec fn not_key(key: UniqueKey) -> spec_fn(MacQueueEntryView) -> bool {
    |e: MacQueueEntryView| e.key != key
}

/// Dropping the frame with `key`: when it is the one waiting for its
/// acknowledgement, the wait is over.
pub open spec fn destination_purge(q: MacDeviceQueueView, key: UniqueKey) -> MacDeviceQueueView {
    MacDeviceQueueView {
        queue: q.queue.filter(not_key(key)),
        waiting_for_ack: if q.waiting_for_ack && q.queue.len() > 0 && q.queue[0].key == key {
            false
        } else {
            q.waiting_for_ack
        },
    }
}

/// Taking the next frame to send, when none waits for an acknowledgement and
/// the front frame is indirect exactly when the destination asked for its
/// data: a frame that asks for an acknowledgement stays at the front until
/// it comes; the pending mark that then applies is given with it.
pub open spec fn destination_pop(q: MacDeviceQueueView, datarequest: bool) -> (
    MacDeviceQueueView,
    Option<(MacQueueEntryView, bool)>,
) {
    if q.waiting_for_ack || q.queue.len() == 0 || q.queue[0].indirect != datarequest {
        (q, None)
    } else {
        let head = q.queue[0];
        let q2 = if head.acknowledge_request {
            MacDeviceQueueView { waiting_for_ack: true, ..q }
        } else {
            MacDeviceQueueView { queue: q.queue.drop_first(), ..q }
        };
        (q2, Some((head, destination_pending(q2))))
    }
}

/// The acknowledgement timer of the frame with `key` ran out: when it is the
/// one waited for, the frame can be sent again.
pub open spec fn destination_ack_timeout(q: MacDeviceQueueView, key: UniqueKey) -> MacDeviceQueueView {
    if q.waiting_for_ack && q.queue.len() > 0 && q.queue[0].key == key {
        MacDeviceQueueView { waiting_for_ack: false, ..q }
    } else {
        q
    }
}

/// The frames for one destination.
struct MacDeviceQueue {
    queue: VecDeque<MacQueueEntry>,
    waiting_for_ack: bool,
}

impl View for MacDeviceQueue {
    type V = MacDeviceQueueView;

    closed spec fn view(&self) -> MacDeviceQueueView {
        MacDeviceQueueView { queue: self.queue@.map_values(|e: MacQueueEntry| e@), waiting_for_ack: self.waiting_for_ack }
    }
}

impl MacDeviceQueue {
    fn new() -> (r: Self)
        ensures
            r@ == (MacDeviceQueueView { queue: Seq::empty(), waiting_for_ack: false }),
    {
        let r = MacDeviceQueue { queue: VecDeque::new(), waiting_for_ack: false };
        assert(r@.queue =~= Seq::<MacQueueEntryView>::empty());
        r
    }

    fn is_empty(&self) -> (r: bool)
        ensures
            r == (self@.queue.len() == 0),
    {
        self.queue.len() == 0
    }

    fn is_pending_indirect(&self) -> (r: bool)
        ensures
            r == destination_pending(self@),
    {
        if self.waiting_for_ack {
            self.queue.len() > 1 && self.queue[1].indirect
        } else {
            self.queue.len() > 0 && self.queue[0].indirect
        }
    }

    fn insert(&mut self, entry: MacQueueEntry)
        ensures
            final(self)@ == (MacDeviceQueueView { queue: old(self)@.queue.push(entry@), ..old(self)@ }),
    {
        self.queue.push_back(entry);
        assert(self@.queue =~= old(self)@.queue.push(entry@));
    }

    fn purge(&mut self, key: UniqueKey)
        ensures
            final(self)@ == destination_purge(old(self)@, key),
    {
        if self.waiting_for_ack && self.queue.len() > 0 && self.queue[0].key.same(&key) {
            self.waiting_for_ack = false;
        }
        let ghost s = old(self)@.queue;
        let mut kept: VecDeque<MacQueueEntry> = VecDeque::new();
        let mut old_queue: VecDeque<MacQueueEntry> = VecDeque::new();
        core::mem::swap(&mut old_queue, &mut self.queue);
        let ghost all = old_queue@;
        assert(all.map_values(|e: MacQueueEntry| e@) == s);
        let mut i: usize = 0;
        while i < old_queue.len()
            invariant
                old_queue@ == all,
                all.map_values(|e: MacQueueEntry| e@) == s,
                i <= s.len(),
                kept@.map_values(|e: MacQueueEntry| e@) == s.take(i as int).filter(not_key(key)),
            decreases s.len() - i,
        {
            assert(s.take(i as int + 1).drop_last() =~= s.take(i as int));
            assert(s[i as int] == old_queue@[i as int]@);
            proof {
                reveal_with_fuel(Seq::filter, 1);
            }
            if !old_queue[i].key.same(&key) {
                kept.push_back(old_queue[i].clone());
                assert(kept@.map_values(|e: MacQueueEntry| e@) =~= s.take(i as int + 1).filter(not_key(key)));
            } else {
                assert(kept@.map_values(|e: MacQueueEntry| e@) =~= s.take(i as int + 1).filter(not_key(key)));
            }
            i = i + 1;
        }
        assert(s.take(s.len() as int) =~= s);
        self.queue = kept;
    }

    fn pop_to_send(&mut self, datarequest: bool) -> (r: Option<(MacQueueEntry, bool)>)
        ensures
            ({
                let (q, out) = destination_pop(old(self)@, datarequest);
                &&& final(self)@ == q
                &&& match out {
                    Some((e, p)) => r matches Some((f, b)) && f@ == e && b == p,
                    None => r is None,
                }
            }),
    {
        if self.waiting_for_ack || self.queue.len() == 0 || self.queue[0].indirect != datarequest {
            None
        } else if self.queue[0].acknowledge_request {
            self.waiting_for_ack = true;
            let head = self.queue[0].clone();
            let pending = self.is_pending_indirect();
            Some((head, pending))
        } else {
            let head = self.queue.pop_front().unwrap();
            assert(self@.queue =~= old(self)@.queue.drop_first());
            let pending = self.is_pending_indirect();
            Some((head, pending))
        }
    }

    fn acknowledge_timeout(&mut self, key: UniqueKey)
        ensures
            final(self)@ == destination_ack_timeout(old(self)@, key),
    {
        if self.waiting_for_ack && self.queue.len() > 0 && self.queue[0].key.same(&key) {
            self.waiting_for_ack = false;
        }
    }
}


/*=== The queue of all destinations ===*/

/// What the MAC queue asks for: to send a frame, or to write a slot of one
/// of the radio's pending tables (under the key its result is reported
/// with).
#[derive(Debug)]
pub enum MacQueueAction {
    Send(MacQueueEntry),
    SetPendingShort(UniqueKey, usize, Option<(PANID, ShortAddress)>),
    SetPendingExtended(UniqueKey, usize, Option<ExtendedAddress>),
}

/// An action, with the frame viewed.
pub enum MacQueueActionView {
    Send(MacQueueEntryView),
    SetPendingShort(UniqueKey, usize, Option<(PANID, ShortAddress)>),
    SetPendingExtended(UniqueKey, usize, Option<ExtendedAddress>),
}

impl View for MacQueueAction {
    type V = MacQueueActionView;

    open spec fn view(&self) -> MacQueueActionView {
        match self {
            MacQueueAction::Send(e) => MacQueueActionView::Send(e@),
            MacQueueAction::SetPendingShort(k, i, v) => MacQueueActionView::SetPendingShort(*k, *i, *v),
            MacQueueAction::SetPendingExtended(k, i, v) => MacQueueActionView::SetPendingExtended(*k, *i, *v),
        }
    }
}

/// The state of the MAC queue: the destination of each queued frame, the
/// queues per destination, whether frames without a destination are
/// pending, and the two pending tables.
pub struct MacQueueView {
    pub frames: Seq<(UniqueKey, Option<FullAddress>)>,
    pub device_queues: Seq<(Option<FullAddress>, MacDeviceQueueView)>,
    pub pending_none: bool,
    pub pending_short: PendingTableView<(PANID, ShortAddress)>,
    pub pending_extended: PendingTableView<ExtendedAddress>,
}

/// Where the frame with `key` is recorded, if it is.
pub open spec fn frame_of(frames: Seq<(UniqueKey, Option<FullAddress>)>, key: UniqueKey) -> Option<int> {
    if exists|i: int| 0 <= i < frames.len() && frames[i].0 == key {
        Some(choose|i: int| 0 <= i < frames.len() && frames[i].0 == key)
    } else {
        None
    }
}

/// The record of the frame with `key` taken out, if it is there.
pub open spec fn without_frame(frames: Seq<(UniqueKey, Option<FullAddress>)>, key: UniqueKey) -> Seq<(UniqueKey, Option<FullAddress>)> {
    match frame_of(frames, key) {
        Some(i) => frames.remove(i),
        None => frames,
    }
}

/// Where the queue of `destination` is, if there is one.
pub open spec fn device_queue_of(queues: Seq<(Option<FullAddress>, MacDeviceQueueView)>, destination: Option<FullAddress>) -> Option<int> {
    if exists|i: int| 0 <= i < queues.len() && queues[i].0 == destination {
        Some(choose|i: int| 0 <= i < queues.len() && queues[i].0 == destination)
    } else {
        None
    }
}

/// Whether `i` is the first queue with a frame to send directly.
pub open spec fn is_first_sendable(queues: Seq<(Option<FullAddress>, MacDeviceQueueView)>, i: int) -> bool {
    &&& 0 <= i < queues.len()
    &&& destination_pop(queues[i].1, false).1 is Some
    &&& forall|j: int| 0 <= j < i ==> (#[trigger] destination_pop(queues[j].1, false)).1 is None
}

/// The first queue with a frame to send directly, if any.
pub open spec fn first_sendable(queues: Seq<(Option<FullAddress>, MacDeviceQueueView)>) -> Option<int> {
    if exists|i: int| is_first_sendable(queues, i) {
        Some(choose|i: int| is_first_sendable(queues, i))
    } else {
        None
    }
}

/// The queue at `i` after a frame was taken: gone when empty.
pub open spec fn after_pop(
    queues: Seq<(Option<FullAddress>, MacDeviceQueueView)>,
    i: int,
    q: MacDeviceQueueView,
) -> Seq<(Option<FullAddress>, MacDeviceQueueView)> {
    if q.queue.len() == 0 {
        queues.remove(i)
    } else {
        queues.update(i, (queues[i].0, q))
    }
}

impl MacQueueView {
    /// Whether `destination` is marked as having data pending.
    pub open spec fn is_pending_indirect(self, destination: Option<FullAddress>) -> bool {
        match destination {
            None => self.pending_none,
            Some(full) => match full.address {
                Address::Short(a) => self.pending_short.values.contains((full.pan_id, a)),
                Address::Extended(a) => self.pending_extended.values.contains(a),
            },
        }
    }

    /// Promoting the pending mark of `destination` in its table; returns
    /// whether it is marked.
    pub open spec fn promote_pending(self, destination: Option<FullAddress>) -> (MacQueueView, bool) {
        match destination {
            None => (self, self.pending_none),
            Some(full) => match full.address {
                Address::Short(a) => {
                    let (t, r) = self.pending_short.promote((full.pan_id, a));
                    (MacQueueView { pending_short: t, ..self }, r)
                },
                Address::Extended(a) => {
                    let (t, r) = self.pending_extended.promote(a);
                    (MacQueueView { pending_extended: t, ..self }, r)
                },
            },
        }
    }

    /// Marking `destination` as having data pending or not.
    pub open spec fn set_pending(self, destination: Option<FullAddress>, pending: bool) -> MacQueueView {
        match destination {
            None => MacQueueView { pending_none: pending, ..self },
            Some(full) => match full.address {
                Address::Short(a) => MacQueueView {
                    pending_short: if pending {
                        self.pending_short.insert((full.pan_id, a)).0
                    } else {
                        self.pending_short.remove((full.pan_id, a)).0
                    },
                    ..self
                },
                Address::Extended(a) => MacQueueView {
                    pending_extended: if pending {
                        self.pending_extended.insert(a).0
                    } else {
                        self.pending_extended.remove(a).0
                    },
                    ..self
                },
            },
        }
    }

    /// Dropping the frame with `key`: its record goes, it leaves the queue of
    /// its destination (which goes when empty), and the pending mark of the
    /// destination follows. Returns whether the frame was queued.
    pub open spec fn purge(self, key: UniqueKey) -> (MacQueueView, bool) {
        match frame_of(self.frames, key) {
            None => (self, false),
            Some(fi) => {
                let destination = self.frames[fi].1;
                let frames = self.frames.remove(fi);
                match device_queue_of(self.device_queues, destination) {
                    Some(qi) => {
                        let q = destination_purge(self.device_queues[qi].1, key);
                        if q.queue.len() == 0 {
                            (
                                MacQueueView { frames, device_queues: self.device_queues.remove(qi), ..self }.set_pending(
                                    destination,
                                    false,
                                ),
                                true,
                            )
                        } else {
                            (
                                MacQueueView {
                                    frames,
                                    device_queues: self.device_queues.update(qi, (destination, q)),
                                    ..self
                                }.set_pending(destination, destination_pending(q)),
                                true,
                            )
                        }
                    },
                    None => (MacQueueView { frames, ..self }.set_pending(destination, false), true),
                }
            },
        }
    }

    /// Taking the next frame to send directly, from the first queue that has
    /// one: a frame that asks for no acknowledgement stays recorded, one
    /// that asks for one is no longer; the pending mark of its destination
    /// follows.
    pub open spec fn pop_to_send(self) -> (MacQueueView, Option<MacQueueEntryView>) {
        match first_sendable(self.device_queues) {
            None => (self, None),
            Some(i) => {
                let (q2, out) = destination_pop(self.device_queues[i].1, false);
                let (e, pending) = out->Some_0;
                let frames = if e.acknowledge_request {
                    without_frame(self.frames, e.key)
                } else {
                    self.frames
                };
                (
                    MacQueueView { frames, device_queues: after_pop(self.device_queues, i, q2), ..self }.set_pending(
                        e.destination,
                        pending,
                    ),
                    Some(e),
                )
            },
        }
    }

    /// Taking the next frame for `destination`, which asked for its data.
    pub open spec fn pop_datarequest(self, destination: Option<FullAddress>) -> (MacQueueView, Option<MacQueueEntryView>) {
        match device_queue_of(self.device_queues, destination) {
            None => (self, None),
            Some(i) => {
                let (q2, out) = destination_pop(self.device_queues[i].1, true);
                let queues = after_pop(self.device_queues, i, q2);
                match out {
                    None => (MacQueueView { device_queues: queues, ..self }, None),
                    Some((e, pending)) => {
                        let frames = if !e.acknowledge_request {
                            without_frame(self.frames, e.key)
                        } else {
                            self.frames
                        };
                        (
                            MacQueueView { frames, device_queues: queues, ..self }.set_pending(e.destination, pending),
                            Some(e),
                        )
                    },
                }
            },
        }
    }

    /// Queueing a frame: refused when its key is queued already; otherwise
    /// recorded and put at the end of the queue of its destination (made
    /// when missing), whose pending mark follows.
    pub open spec fn insert(self, entry: MacQueueEntryView) -> (MacQueueView, bool) {
        if frame_of(self.frames, entry.key) is Some {
            (self, false)
        } else {
            let frames = self.frames.push((entry.key, entry.destination));
            match device_queue_of(self.device_queues, entry.destination) {
                Some(i) => {
                    let q = MacDeviceQueueView { queue: self.device_queues[i].1.queue.push(entry), ..self.device_queues[i].1 };
                    (
                        MacQueueView {
                            frames,
                            device_queues: self.device_queues.update(i, (entry.destination, q)),
                            ..self
                        }.set_pending(entry.destination, destination_pending(q)),
                        true,
                    )
                },
                None => {
                    let q = MacDeviceQueueView { queue: seq![entry], waiting_for_ack: false };
                    (
                        MacQueueView { frames, device_queues: self.device_queues.push((entry.destination, q)), ..self }.set_pending(
                            entry.destination,
                            destination_pending(q),
                        ),
                        true,
                    )
                },
            }
        }
    }

    /// The acknowledgement timer of the frame with `key` ran out: the queue
    /// of its destination may send it again, and the pending mark follows.
    pub open spec fn acknowledge_timeout(self, key: UniqueKey) -> MacQueueView {
        match frame_of(self.frames, key) {
            None => self,
            Some(fi) => {
                let destination = self.frames[fi].1;
                match device_queue_of(self.device_queues, destination) {
                    Some(i) => {
                        let q = destination_ack_timeout(self.device_queues[i].1, key);
                        MacQueueView {
                            device_queues: self.device_queues.update(i, (destination, q)),
                            ..self
                        }.set_pending(destination, destination_pending(q))
                    },
                    None => self.set_pending(destination, false),
                }
            },
        }
    }

    /// The next action: a frame to send directly, then a slot of the short
    /// table to write, then one of the extended table (under `key`).
    pub open spec fn poll_action(self, key: UniqueKey) -> (MacQueueView, Option<MacQueueActionView>) {
        let (s, e) = self.pop_to_send();
        if e is Some {
            (s, Some(MacQueueActionView::Send(e->Some_0)))
        } else if self.pending_short.has_update() {
            let (t, u) = self.pending_short.poll_update(key);
            let (k, i, v) = u->Some_0;
            (MacQueueView { pending_short: t, ..self }, Some(MacQueueActionView::SetPendingShort(k, i, v)))
        } else if self.pending_extended.has_update() {
            let (t, u) = self.pending_extended.poll_update(key);
            let (k, i, v) = u->Some_0;
            (MacQueueView { pending_extended: t, ..self }, Some(MacQueueActionView::SetPendingExtended(k, i, v)))
        } else {
            (self, None)
        }
    }
}

/// No two pairs have the same first component.
pub open spec fn firsts_distinct<A, B>(s: Seq<(A, B)>) -> bool {
    forall|i: int, j: int| 0 <= i < j < s.len() ==> #[trigger] s[i].0 != #[trigger] s[j].0
}

/// Removing a pair keeps the first components distinct.
pub proof fn lemma_remove_keeps_distinct<A, B>(s: Seq<(A, B)>, i: int)
    requires
        firsts_distinct(s),
        0 <= i < s.len(),
    ensures
        firsts_distinct(s.remove(i)),
{
    let r = s.remove(i);
    assert forall|a: int, b: int| 0 <= a < b < r.len() implies #[trigger] r[a].0 != #[trigger] r[b].0 by {
        let a2 = if a < i { a } else { a + 1 };
        let b2 = if b < i { b } else { b + 1 };
        assert(r[a] == s[a2] && r[b] == s[b2]);
    }
}

/// Replacing a pair by one with the same first component keeps the first
/// components distinct.
pub proof fn lemma_update_keeps_distinct<A, B>(s: Seq<(A, B)>, i: int, x: (A, B))
    requires
        firsts_distinct(s),
        0 <= i < s.len(),
        x.0 == s[i].0,
    ensures
        firsts_distinct(s.update(i, x)),
{
    let u = s.update(i, x);
    assert forall|a: int, b: int| 0 <= a < b < u.len() implies #[trigger] u[a].0 != #[trigger] u[b].0 by {
        assert(u[a].0 == s[a].0 && u[b].0 == s[b].0);
    }
}

/// Appending a pair with a new first component keeps the first components
/// distinct.
pub proof fn lemma_push_keeps_distinct<A, B>(s: Seq<(A, B)>, x: (A, B))
    requires
        firsts_distinct(s),
        forall|i: int| 0 <= i < s.len() ==> s[i].0 != x.0,
    ensures
        firsts_distinct(s.push(x)),
{
    let p = s.push(x);
    assert forall|a: int, b: int| 0 <= a < b < p.len() implies #[trigger] p[a].0 != #[trigger] p[b].0 by {
        if b == s.len() {
            assert(s[a].0 != x.0);
        } else {
            assert(p[a] == s[a] && p[b] == s[b]);
        }
    }
}

/// No frame is recorded twice, and no destination has two queues.
pub open spec fn mac_queue_wf(s: MacQueueView) -> bool {
    &&& firsts_distinct(s.frames)
    &&& firsts_distinct(s.device_queues)
}


/// A record found at `i` is the one `frame_of` gives, when keys are
/// distinct.
proof fn lemma_frame_of_at(frames: Seq<(UniqueKey, Option<FullAddress>)>, i: int)
    requires
        firsts_distinct(frames),
        0 <= i < frames.len(),
    ensures
        frame_of(frames, frames[i].0) == Some(i),
{
    let key = frames[i].0;
    let c = choose|c: int| 0 <= c < frames.len() && frames[c].0 == key;
    if c < i {
        assert(frames[c].0 != frames[i].0);
    } else if c > i {
        assert(frames[i].0 != frames[c].0);
    }
}

/// Whether the pending tables are well formed and have slots.
pub open spec fn tables_wf(s: MacQueueView) -> bool {
    &&& table_wf(s.pending_short)
    &&& table_wf(s.pending_extended)
    &&& s.pending_short.table.len() > 0
    &&& s.pending_extended.table.len() > 0
}

/// After marking a destination, it is marked exactly as asked.
proof fn lemma_set_pending_marks(s: MacQueueView, destination: Option<FullAddress>, pending: bool)
    requires
        tables_wf(s),
    ensures
        s.set_pending(destination, pending).is_pending_indirect(destination) == pending,
        s.set_pending(destination, pending).frames == s.frames,
        s.set_pending(destination, pending).device_queues == s.device_queues,
        tables_wf(s.set_pending(destination, pending)),
{
    match destination {
        None => {},
        Some(full) => match full.address {
            Address::Short(a) => {
                lemma_insert_remove_effect(s.pending_short, (full.pan_id, a));
                lemma_ops_keep_wf(s.pending_short, (full.pan_id, a), arbitrary(), false);
                lemma_ops_keep_len(s.pending_short, (full.pan_id, a));
            },
            Address::Extended(a) => {
                lemma_insert_remove_effect(s.pending_extended, a);
                lemma_ops_keep_wf(s.pending_extended, a, arbitrary(), false);
                lemma_ops_keep_len(s.pending_extended, a);
            },
        },
    }
}

/// A frame that was queued can be dropped again: purging its key after an
/// accepted insert succeeds and leaves no record of it.
pub proof fn lemma_insert_then_purge(s: MacQueueView, entry: MacQueueEntryView)
    requires
        mac_queue_wf(s),
        tables_wf(s),
        frame_of(s.frames, entry.key) is None,
    ensures
        s.insert(entry).1,
        s.insert(entry).0.purge(entry.key).1,
        frame_of(s.insert(entry).0.purge(entry.key).0.frames, entry.key) is None,
{
    let n = s.frames.len() as int;
    let frames = s.frames.push((entry.key, entry.destination));
    assert forall|i: int| 0 <= i < s.frames.len() implies s.frames[i].0 != entry.key by {
        if s.frames[i].0 == entry.key {
            assert(exists|j: int| 0 <= j < s.frames.len() && s.frames[j].0 == entry.key);
        }
    }
    lemma_push_keeps_distinct(s.frames, (entry.key, entry.destination));
    let s1 = s.insert(entry).0;
    match device_queue_of(s.device_queues, entry.destination) {
        Some(i) => {
            let q = MacDeviceQueueView { queue: s.device_queues[i].1.queue.push(entry), ..s.device_queues[i].1 };
            lemma_set_pending_marks(
                MacQueueView { frames, device_queues: s.device_queues.update(i, (entry.destination, q)), ..s },
                entry.destination,
                destination_pending(q),
            );
        },
        None => {
            let q = MacDeviceQueueView { queue: seq![entry], waiting_for_ack: false };
            lemma_set_pending_marks(
                MacQueueView { frames, device_queues: s.device_queues.push((entry.destination, q)), ..s },
                entry.destination,
                destination_pending(q),
            );
        },
    }
    assert(s1.frames == frames);
    assert(frames[n].0 == entry.key);
    lemma_frame_of_at(frames, n);
    let s2 = s1.purge(entry.key).0;
    let rest = frames.remove(n);
    assert(rest =~= s.frames);
    match device_queue_of(s1.device_queues, entry.destination) {
        Some(qi) => {
            let q = destination_purge(s1.device_queues[qi].1, entry.key);
            if q.queue.len() == 0 {
                lemma_set_pending_marks(
                    MacQueueView { frames: rest, device_queues: s1.device_queues.remove(qi), ..s1 },
                    entry.destination,
                    false,
                );
            } else {
                lemma_set_pending_marks(
                    MacQueueView { frames: rest, device_queues: s1.device_queues.update(qi, (entry.destination, q)), ..s1 },
                    entry.destination,
                    destination_pending(q),
                );
            }
        },
        None => {
            lemma_set_pending_marks(MacQueueView { frames: rest, ..s1 }, entry.destination, false);
        },
    }
    assert(s2.frames == s.frames);
}

/// After an accepted insert, the pending mark of the destination agrees
/// with its queue: it is set exactly when the next frame to send there
/// waits to be asked for.
pub proof fn lemma_insert_marks_destination(s: MacQueueView, entry: MacQueueEntryView)
    requires
        mac_queue_wf(s),
        tables_wf(s),
        frame_of(s.frames, entry.key) is None,
    ensures
        ({
            let s1 = s.insert(entry).0;
            let i = device_queue_of(s1.device_queues, entry.destination);
            &&& i is Some
            &&& s1.is_pending_indirect(entry.destination) == destination_pending(s1.device_queues[i->Some_0].1)
        }),
{
    let frames = s.frames.push((entry.key, entry.destination));
    let s1 = s.insert(entry).0;
    match device_queue_of(s.device_queues, entry.destination) {
        Some(i) => {
            let q = MacDeviceQueueView { queue: s.device_queues[i].1.queue.push(entry), ..s.device_queues[i].1 };
            let qs = s.device_queues.update(i, (entry.destination, q));
            lemma_set_pending_marks(MacQueueView { frames, device_queues: qs, ..s }, entry.destination, destination_pending(q));
            assert(qs[i].0 == entry.destination);
            lemma_update_keeps_distinct(s.device_queues, i, (entry.destination, q));
            let j = device_queue_of(qs, entry.destination)->Some_0;
            assert(0 <= j < qs.len() && qs[j].0 == entry.destination);
            if j < i {
                assert(qs[j].0 != qs[i].0);
            } else if j > i {
                assert(qs[i].0 != qs[j].0);
            }
        },
        None => {
            let q = MacDeviceQueueView { queue: seq![entry], waiting_for_ack: false };
            let qs = s.device_queues.push((entry.destination, q));
            lemma_set_pending_marks(MacQueueView { frames, device_queues: qs, ..s }, entry.destination, destination_pending(q));
            let n = s.device_queues.len() as int;
            assert(qs[n].0 == entry.destination);
            let j = device_queue_of(qs, entry.destination)->Some_0;
            assert(0 <= j < qs.len() && qs[j].0 == entry.destination);
            if j < n {
                assert(qs[j] == s.device_queues[j]);
                assert(exists|k: int| 0 <= k < s.device_queues.len() && s.device_queues[k].0 == entry.destination);
            }
        },
    }
}

/// The number of slots in each pending table.
pub const PENDING_TABLE_SIZE: usize = 8;

/// The frames queued per destination, and the radio's pending tables.
pub struct MacQueue {
    frames: Vec<(UniqueKey, Option<FullAddress>)>,
    device_queues: Vec<(Option<FullAddress>, MacDeviceQueue)>,
    waker: WakerStore,
    pending_none: bool,
    pending_short: PendingTable<(PANID, ShortAddress)>,
    pending_extended: PendingTable<ExtendedAddress>,
}

impl View for MacQueue {
    type V = MacQueueView;

    closed spec fn view(&self) -> MacQueueView {
        MacQueueView {
            frames: self.frames@,
            device_queues: self.device_queues@.map_values(|p: (Option<FullAddress>, MacDeviceQueue)| (p.0, p.1@)),
            pending_none: self.pending_none,
            pending_short: self.pending_short@,
            pending_extended: self.pending_extended@,
        }
    }
}

/// Whether two optional addresses are equal.
fn same_destination(a: &Option<FullAddress>, b: &Option<FullAddress>) -> (r: bool)
    ensures
        r == (*a == *b),
{
    match (a, b) {
        (None, None) => true,
        (Some(x), Some(y)) => *x == *y,
        _ => false,
    }
}

impl MacQueue {
    /// The invariant of the queue.
    pub closed spec fn wf(&self) -> bool {
        &&& mac_queue_wf(self@)
        &&& self.pending_short.wf()
        &&& self.pending_extended.wf()
        &&& self@.pending_short.table.len() == PENDING_TABLE_SIZE
        &&& self@.pending_extended.table.len() == PENDING_TABLE_SIZE
    }

    /// Whether a task waits to be woken when there may be something to do.
    pub closed spec fn waiting(&self) -> bool {
        self.waker.holds_waker()
    }

    /// An empty queue, with empty pending tables of eight slots.
    pub fn new() -> (r: MacQueue)
        ensures
            r.wf(),
            !r.waiting(),
            r@ == (MacQueueView {
                frames: Seq::empty(),
                device_queues: Seq::empty(),
                pending_none: false,
                pending_short: empty_table(PENDING_TABLE_SIZE as nat),
                pending_extended: empty_table(PENDING_TABLE_SIZE as nat),
            }),
    {
        let r = MacQueue {
            frames: Vec::new(),
            device_queues: Vec::new(),
            waker: WakerStore::new(),
            pending_none: false,
            pending_short: PendingTable::new(PENDING_TABLE_SIZE),
            pending_extended: PendingTable::new(PENDING_TABLE_SIZE),
        };
        assert(r@.frames =~= Seq::<(UniqueKey, Option<FullAddress>)>::empty());
        assert(r@.device_queues =~= Seq::<(Option<FullAddress>, MacDeviceQueueView)>::empty());
        r
    }

    /// Where the frame with `key` is recorded.
    fn find_frame(&self, key: UniqueKey) -> (r: Option<usize>)
        requires
            self.wf(),
        ensures
            match r {
                Some(i) => frame_of(self@.frames, key) == Some(i as int),
                None => frame_of(self@.frames, key) is None,
            },
    {
        let mut i: usize = 0;
        while i < self.frames.len()
            invariant
                self.wf(),
                i <= self@.frames.len(),
                forall|j: int| 0 <= j < i ==> self@.frames[j].0 != key,
            decreases self@.frames.len() - i,
        {
            if self.frames[i].0.same(&key) {
                proof {
                    let fs = self@.frames;
                    assert(firsts_distinct(fs));
                    let c = choose|c: int| 0 <= c < fs.len() && fs[c].0 == key;
                    if c < i {
                        assert(fs[c].0 != fs[i as int].0);
                    } else if c > i {
                        assert(fs[i as int].0 != fs[c].0);
                    }
                }
                return Some(i);
            }
            i = i + 1;
        }
        None
    }

    /// Where the queue of `destination` is.
    fn find_queue(&self, destination: &Option<FullAddress>) -> (r: Option<usize>)
        requires
            self.wf(),
        ensures
            match r {
                Some(i) => device_queue_of(self@.device_queues, *destination) == Some(i as int),
                None => device_queue_of(self@.device_queues, *destination) is None,
            },
    {
        let mut i: usize = 0;
        while i < self.device_queues.len()
            invariant
                self.wf(),
                i <= self@.device_queues.len(),
                forall|j: int| 0 <= j < i ==> self@.device_queues[j].0 != *destination,
            decreases self@.device_queues.len() - i,
        {
            assert(self@.device_queues[i as int].0 == self.device_queues@[i as int].0);
            if same_destination(&self.device_queues[i].0, destination) {
                proof {
                    let qs = self@.device_queues;
                    assert(firsts_distinct(qs));
                    let c = choose|c: int| 0 <= c < qs.len() && qs[c].0 == *destination;
                    if c < i {
                        assert(qs[c].0 != qs[i as int].0);
                    } else if c > i {
                        assert(qs[i as int].0 != qs[c].0);
                    }
                }
                return Some(i);
            }
            i = i + 1;
        }
        None
    }

    /// Whether `destination` is marked as having data pending.
    pub fn is_pending_indirect(&self, destination: &Option<FullAddress>) -> (r: bool)
        requires
            self.wf(),
        ensures
            r == self@.is_pending_indirect(*destination),
    {
        match destination {
            None => self.pending_none,
            Some(full) => match full.address {
                Address::Short(a) => self.pending_short.contains(&(full.pan_id, a)),
                Address::Extended(a) => self.pending_extended.contains(&a),
            },
        }
    }

    /// Promotes the pending mark of `destination` in its table, so that it
    /// is the last to be evicted; returns whether it is marked.
    pub fn promote_pending(&mut self, destination: &Option<FullAddress>) -> (r: bool)
        requires
            old(self).wf(),
        ensures
            final(self).wf(),
            (final(self)@, r) == old(self)@.promote_pending(*destination),
    {
        let r = match destination {
            None => self.pending_none,
            Some(full) => match full.address {
                Address::Short(a) => self.pending_short.promote(&(full.pan_id, a)),
                Address::Extended(a) => self.pending_extended.promote(&a),
            },
        };
        assert(self@.frames == old(self)@.frames);
        assert(self@.device_queues == old(self)@.device_queues);
        r
    }

    /// Marks `destination` as having data pending or not.
    fn set_pending(&mut self, destination: &Option<FullAddress>, pending: bool)
        requires
            old(self).wf(),
        ensures
            final(self).wf(),
            final(self)@ == old(self)@.set_pending(*destination, pending),
            final(self).waiting() == old(self).waiting(),
    {
        match destination {
            None => self.pending_none = pending,
            Some(full) => match full.address {
                Address::Short(a) => self.pending_short.set(&(full.pan_id, a), pending),
                Address::Extended(a) => self.pending_extended.set(&a, pending),
            },
        }
    }

    /// Reports the result of writing a slot of the short table.
    pub fn report_set_pending_short_result(&mut self, key: UniqueKey, result: bool)
        requires
            old(self).wf(),
        ensures
            final(self).wf(),
            final(self)@ == (MacQueueView {
                pending_short: old(self)@.pending_short.report_update_result(key, result),
                ..old(self)@
            }),
    {
        self.pending_short.report_update_result(key, result)
    }

    /// Reports the result of writing a slot of the extended table.
    pub fn report_set_pending_extended_result(&mut self, key: UniqueKey, result: bool)
        requires
            old(self).wf(),
        ensures
            final(self).wf(),
            final(self)@ == (MacQueueView {
                pending_extended: old(self)@.pending_extended.report_update_result(key, result),
                ..old(self)@
            }),
    {
        self.pending_extended.report_update_result(key, result)
    }

    /// Takes out the record of the frame with `key`, if there is one.
    fn remove_frame(&mut self, key: UniqueKey)
        requires
            old(self).wf(),
        ensures
            final(self).wf(),
            final(self)@ == (MacQueueView { frames: without_frame(old(self)@.frames, key), ..old(self)@ }),
            final(self).waiting() == old(self).waiting(),
    {
        match self.find_frame(key) {
            Some(i) => {
                proof {
                    lemma_remove_keeps_distinct(self@.frames, i as int);
                }
                self.frames.remove(i);
                assert(self@.device_queues == old(self)@.device_queues);
            },
            None => {},
        }
    }

    /// Wakes the waiting task, if any.
    fn wake(&mut self)
        ensures
            final(self)@ == old(self)@,
            !final(self).waiting(),
            final(self).wf() == old(self).wf(),
    {
        self.waker.wake();
        assert(self@.device_queues == old(self)@.device_queues);
    }

    /// Drops the frame with `key`; returns whether it was queued.
    pub fn purge(&mut self, key: UniqueKey) -> (r: bool)
        requires
            old(self).wf(),
        ensures
            final(self).wf(),
            (final(self)@, r) == old(self)@.purge(key),
            final(self).waiting() == (old(self).waiting() && !(r && device_queue_of(
                old(self)@.device_queues,
                old(self)@.frames[frame_of(old(self)@.frames, key)->Some_0].1,
            ) is Some)),
    {
        match self.find_frame(key) {
            None => false,
            Some(fi) => {
                let destination = self.frames[fi].1;
                proof {
                    lemma_remove_keeps_distinct(self@.frames, fi as int);
                }
                self.frames.remove(fi);
                assert(self@.device_queues == old(self)@.device_queues);
                let mut pending = false;
                match self.find_queue(&destination) {
                    Some(qi) => {
                        let ghost qs = self@.device_queues;
                        proof {
                            lemma_update_keeps_distinct(qs, qi as int, (destination, destination_purge(qs[qi as int].1, key)));
                        }
                        self.device_queues[qi].1.purge(key);
                        assert(self@.device_queues =~= qs.update(qi as int, (destination, destination_purge(qs[qi as int].1, key))));
                        if self.device_queues[qi].1.is_empty() {
                            proof {
                                lemma_remove_keeps_distinct(self@.device_queues, qi as int);
                            }
                            self.device_queues.remove(qi);
                            assert(self@.device_queues =~= qs.remove(qi as int));
                        } else {
                            pending = self.device_queues[qi].1.is_pending_indirect();
                        }
                        self.wake();
                    },
                    None => {},
                }
                self.set_pending(&destination, pending);
                true
            },
        }
    }

    /// Drops the frame with `key`, which was acknowledged.
    pub fn acknowledge(&mut self, key: UniqueKey)
        requires
            old(self).wf(),
        ensures
            final(self).wf(),
            final(self)@ == old(self)@.purge(key).0,
    {
        self.purge(key);
    }

    /// The next frame to send directly, if a queue has one.
    fn pop_to_send(&mut self) -> (r: Option<MacQueueEntry>)
        requires
            old(self).wf(),
        ensures
            final(self).wf(),
            ({
                let (s, e) = old(self)@.pop_to_send();
                &&& final(self)@ == s
                &&& match e {
                    Some(x) => r matches Some(y) && y@ == x,
                    None => r is None,
                }
            }),
            final(self).waiting() == (old(self).waiting() && r is None),
    {
        let mut i: usize = 0;
        while i < self.device_queues.len()
            invariant
                self.wf(),
                self@ == old(self)@,
                self.waiting() == old(self).waiting(),
                i <= self@.device_queues.len(),
                forall|j: int| 0 <= j < i ==> (#[trigger] destination_pop(self@.device_queues[j].1, false)).1 is None,
            decreases self@.device_queues.len() - i,
        {
            let ghost qs = self@.device_queues;
            let ghost q = qs[i as int].1;
            let res = self.device_queues[i].1.pop_to_send(false);
            match res {
                None => {
                    assert(self@.device_queues =~= qs);
                    i = i + 1;
                },
                Some((to_send, pending)) => {
                    let ghost q2 = destination_pop(q, false).0;
                    proof {
                        assert(is_first_sendable(qs, i as int));
                        let c = choose|c: int| is_first_sendable(qs, c);
                        if c < i {
                            assert(destination_pop(qs[c].1, false).1 is None);
                        } else if c > i {
                            assert(destination_pop(qs[i as int].1, false).1 is None);
                        }
                        assert(first_sendable(qs) == Some(i as int));
                        lemma_update_keeps_distinct(qs, i as int, (qs[i as int].0, q2));
                    }
                    assert(self@.device_queues =~= qs.update(i as int, (qs[i as int].0, q2)));
                    if self.device_queues[i].1.is_empty() {
                        proof {
                            lemma_remove_keeps_distinct(self@.device_queues, i as int);
                        }
                        self.device_queues.remove(i);
                        assert(self@.device_queues =~= qs.remove(i as int));
                    }
                    assert(self@.device_queues == after_pop(qs, i as int, q2));
                    if to_send.acknowledge_request {
                        self.remove_frame(to_send.key);
                    }
                    self.set_pending(&to_send.destination, pending);
                    self.wake();
                    return Some(to_send);
                },
            }
        }
        proof {
            if exists|c: int| is_first_sendable(self@.device_queues, c) {
                let c = choose|c: int| is_first_sendable(self@.device_queues, c);
                assert(destination_pop(self@.device_queues[c].1, false).1 is None);
            }
        }
        None
    }

    /// The next frame for `destination`, which asked for its data.
    pub fn pop_datarequest(&mut self, destination: &Option<FullAddress>) -> (r: Option<MacQueueEntry>)
        requires
            old(self).wf(),
        ensures
            final(self).wf(),
            ({
                let (s, e) = old(self)@.pop_datarequest(*destination);
                &&& final(self)@ == s
                &&& match e {
                    Some(x) => r matches Some(y) && y@ == x,
                    None => r is None,
                }
            }),
            final(self).waiting() == (old(self).waiting() && r is None),
    {
        match self.find_queue(destination) {
            None => None,
            Some(i) => {
                let ghost qs = self@.device_queues;
                let ghost q2 = destination_pop(qs[i as int].1, true).0;
                proof {
                    lemma_update_keeps_distinct(qs, i as int, (qs[i as int].0, q2));
                }
                let res = self.device_queues[i].1.pop_to_send(true);
                assert(self@.device_queues =~= qs.update(i as int, (qs[i as int].0, q2)));
                if self.device_queues[i].1.is_empty() {
                    proof {
                        lemma_remove_keeps_distinct(self@.device_queues, i as int);
                    }
                    self.device_queues.remove(i);
                    assert(self@.device_queues =~= qs.remove(i as int));
                }
                assert(self@.device_queues == after_pop(qs, i as int, q2));
                match res {
                    None => None,
                    Some((to_send, pending)) => {
                        if !to_send.acknowledge_request {
                            self.remove_frame(to_send.key);
                        }
                        self.set_pending(&to_send.destination, pending);
                        self.wake();
                        Some(to_send)
                    },
                }
            },
        }
    }

    /// Queues a frame; refused, returning `false`, when its key is queued
    /// already.
    pub fn insert(&mut self, entry: MacQueueEntry) -> (r: bool)
        requires
            old(self).wf(),
        ensures
            final(self).wf(),
            (final(self)@, r) == old(self)@.insert(entry@),
            final(self).waiting() == (old(self).waiting() && !r),
    {
        let key = entry.key;
        let destination = entry.destination;
        if self.find_frame(key).is_some() {
            return false;
        }
        proof {
            lemma_push_keeps_distinct(self@.frames, (key, destination));
        }
        self.frames.push((key, destination));
        assert(self@.device_queues == old(self)@.device_queues);
        let ghost e = entry@;
        let pending;
        match self.find_queue(&destination) {
            Some(i) => {
                let ghost qs = self@.device_queues;
                let ghost q = MacDeviceQueueView { queue: qs[i as int].1.queue.push(e), ..qs[i as int].1 };
                proof {
                    lemma_update_keeps_distinct(qs, i as int, (destination, q));
                }
                self.device_queues[i].1.insert(entry);
                assert(self@.device_queues =~= qs.update(i as int, (destination, q)));
                pending = self.device_queues[i].1.is_pending_indirect();
            },
            None => {
                let mut q = MacDeviceQueue::new();
                q.insert(entry);
                assert(q@.queue =~= seq![e]);
                pending = q.is_pending_indirect();
                let ghost qs = self@.device_queues;
                proof {
                    lemma_push_keeps_distinct(qs, (destination, q@));
                }
                self.device_queues.push((destination, q));
                assert(self@.device_queues =~= qs.push((destination, q@)));
            },
        }
        self.set_pending(&destination, pending);
        self.wake();
        true
    }

    /// The acknowledgement timer of the frame with `key` ran out.
    pub fn acknowledge_timeout(&mut self, key: UniqueKey)
        requires
            old(self).wf(),
        ensures
            final(self).wf(),
            final(self)@ == old(self)@.acknowledge_timeout(key),
            final(self).waiting() == (old(self).waiting() && frame_of(old(self)@.frames, key) is None),
    {
        match self.find_frame(key) {
            None => {},
            Some(fi) => {
                let destination = self.frames[fi].1;
                let mut pending = false;
                match self.find_queue(&destination) {
                    Some(i) => {
                        let ghost qs = self@.device_queues;
                        let ghost q = destination_ack_timeout(qs[i as int].1, key);
                        proof {
                            lemma_update_keeps_distinct(qs, i as int, (destination, q));
                        }
                        self.device_queues[i].1.acknowledge_timeout(key);
                        assert(self@.device_queues =~= qs.update(i as int, (destination, q)));
                        pending = self.device_queues[i].1.is_pending_indirect();
                    },
                    None => {},
                }
                self.set_pending(&destination, pending);
                self.wake();
            },
        }
    }

    /// The next action: a frame to send directly, then a slot of the short
    /// table to write, then one of the extended table. Without one, the task
    /// polling waits to be woken.
    pub fn poll_action(&mut self, cx: &mut Context<'_>) -> (r: Option<MacQueueAction>)
        requires
            old(self).wf(),
        ensures
            final(self).wf(),
            exists|key: UniqueKey|
                (final(self)@, match r {
                    Some(a) => Some(a@),
                    None => None::<MacQueueActionView>,
                }) == #[trigger] old(self)@.poll_action(key),
            r is None ==> final(self).waiting(),
    {
        let ghost s0 = self@;
        match self.pop_to_send() {
            Some(e) => {
                let r = MacQueueAction::Send(e);
                assert((self@, Some(r@)) == s0.poll_action(arbitrary()));
                return Some(r);
            },
            None => {},
        }
        assert(self@ == s0);
        match self.pending_short.poll_update(cx) {
            Some(u) => {
                let r = MacQueueAction::SetPendingShort(u.key, u.index, u.value);
                assert(self@.frames == s0.frames && self@.device_queues == s0.device_queues);
                assert((self@, Some(r@)) == s0.poll_action(u.key));
                return Some(r);
            },
            None => {},
        }
        match self.pending_extended.poll_update(cx) {
            Some(u) => {
                let r = MacQueueAction::SetPendingExtended(u.key, u.index, u.value);
                assert(self@.frames == s0.frames && self@.device_queues == s0.device_queues);
                assert((self@, Some(r@)) == s0.poll_action(u.key));
                return Some(r);
            },
            None => {},
        }
        self.waker.register_context(cx);
        assert(self@.frames == s0.frames && self@.device_queues == s0.device_queues);
        assert((self@, None::<MacQueueActionView>) == s0.poll_action(arbitrary()));
        None
    }
}

} // verus!

