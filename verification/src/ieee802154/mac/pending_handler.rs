//! Hands out a fixed set of slots (the radio's pending-data table entries) to
//! the items most recently promoted; when all are taken, the least recently
//! promoted item loses its slot.
use crate::item::SetItem;
use std::collections::VecDeque;
use vstd::multiset::Multiset;
use vstd::prelude::*;

verus! {

/// The state of a pending handler: the free slots, in the order they are
/// handed out, and the items holding a slot, most recently promoted first.
pub struct PendingHandlerView<S, V> {
    pub free: Seq<S>,
    pub used: Seq<(V, S)>,
}

impl<S, V> PendingHandlerView<S, V> {
    /// The items holding a slot, most recently promoted first.
    pub open spec fn items(self) -> Seq<V> {
        self.used.map_values(|e: (V, S)| e.0)
    }

    /// The slots held by the items, in the same order.
    pub open spec fn held(self) -> Seq<S> {
        self.used.map_values(|e: (V, S)| e.1)
    }

    /// No item holds two slots.
    pub open spec fn wf(self) -> bool {
        self.items().no_duplicates()
    }

    /// All slots, free or held.
    pub open spec fn slots(self) -> Multiset<S> {
        self.free.to_multiset().add(self.held().to_multiset())
    }

    /// Whether `v` can be promoted: it holds a slot already, or there is a
    /// slot to give it.
    pub open spec fn can_promote(self, v: V) -> bool {
        self.items().contains(v) || self.free.len() + self.used.len() > 0
    }

    /// Promoting `v`: an item that holds a slot becomes the most recent one and
    /// nothing is returned; a new item takes the first free slot, or, with none
    /// free, the slot of the least recently promoted item, and that slot is
    /// returned.
    pub open spec fn promote(self, v: V) -> (PendingHandlerView<S, V>, Option<S>) {
        if self.items().contains(v) {
            let k = self.items().index_of(v);
            (PendingHandlerView { free: self.free, used: seq![self.used[k]] + self.used.remove(k) }, None)
        } else if self.free.len() > 0 {
            let slot = self.free[0];
            (PendingHandlerView { free: self.free.drop_first(), used: seq![(v, slot)] + self.used }, Some(slot))
        } else {
            let slot = self.used.last().1;
            (PendingHandlerView { free: self.free, used: seq![(v, slot)] + self.used.drop_last() }, Some(slot))
        }
    }

    /// Clearing `v`: its slot goes to the back of the free slots and is
    /// returned; nothing happens to an item without a slot.
    pub open spec fn clear(self, v: V) -> (PendingHandlerView<S, V>, Option<S>) {
        if self.items().contains(v) {
            let k = self.items().index_of(v);
            let slot = self.used[k].1;
            (PendingHandlerView { free: self.free.push(slot), used: self.used.remove(k) }, Some(slot))
        } else {
            (self, None)
        }
    }
}

/// Hands out slots of type `S` to items of type `I`.
pub struct PendingHandler<S, I> {
    free_slots: VecDeque<S>,
    used_slots: Vec<(I, S)>,
}

impl<S, I: View> View for PendingHandler<S, I> {
    type V = PendingHandlerView<S, I::V>;

    closed spec fn view(&self) -> PendingHandlerView<S, I::V> {
        PendingHandlerView { free: self.free_slots@, used: self.used_slots@.map_values(|e: (I, S)| (e.0@, e.1)) }
    }
}

proof fn lemma_items_index<S, V>(s: PendingHandlerView<S, V>, k: int)
    requires
        0 <= k < s.used.len(),
    ensures
        s.items()[k] == s.used[k].0,
        s.held()[k] == s.used[k].1,
        s.items().len() == s.used.len(),
        s.held().len() == s.used.len(),
{
}

/// Promoting keeps every item at most once.
pub proof fn lemma_promote_wf<S, V>(s: PendingHandlerView<S, V>, v: V)
    requires
        s.wf(),
        s.can_promote(v),
    ensures
        s.promote(v).0.wf(),
        s.promote(v).0.items().contains(v),
        s.promote(v).0.items()[0] == v,
{
    let t = s.promote(v).0;
    if s.items().contains(v) {
        let k = s.items().index_of(v);
        assert(t.items() =~= seq![v] + s.items().remove(k));
        assert(t.items()[0] == v);
    } else if s.free.len() > 0 {
        assert(t.items() =~= seq![v] + s.items());
        assert(t.items()[0] == v);
    } else {
        assert(t.items() =~= seq![v] + s.items().drop_last());
        assert(t.items()[0] == v);
    }
}

/// Clearing keeps every item at most once, and the item no longer holds a
/// slot.
pub proof fn lemma_clear_wf<S, V>(s: PendingHandlerView<S, V>, v: V)
    requires
        s.wf(),
    ensures
        s.clear(v).0.wf(),
        !s.clear(v).0.items().contains(v),
{
    let t = s.clear(v).0;
    if s.items().contains(v) {
        let k = s.items().index_of(v);
        assert(t.items() =~= s.items().remove(k));
        assert forall|i: int| 0 <= i < t.items().len() implies t.items()[i] != v by {
            if i < k {
                assert(t.items()[i] == s.items()[i]);
            } else {
                assert(t.items()[i] == s.items()[i + 1]);
            }
        }
    }
}

/// Promoting and clearing neither lose nor duplicate a slot: the slots, free
/// or held, stay the same.
pub proof fn lemma_slots_kept<S, V>(s: PendingHandlerView<S, V>, v: V)
    requires
        s.can_promote(v),
    ensures
        s.promote(v).0.slots() == s.slots(),
        s.clear(v).0.slots() == s.slots(),
{
    broadcast use vstd::seq_lib::group_to_multiset_ensures;
    broadcast use vstd::multiset::group_multiset_axioms;
    broadcast use vstd::seq_lib::lemma_multiset_commutative;

    let t = s.promote(v).0;
    if s.items().contains(v) {
        let k = s.items().index_of(v);
        let x = s.held()[k];
        lemma_items_index(s, k);
        assert(t.held() =~= seq![x] + s.held().remove(k));
        vstd::seq_lib::to_multiset_remove(s.held(), k);
        assert(t.held().to_multiset() =~= s.held().to_multiset());
        assert(t.slots() =~= s.slots());
        let c = s.clear(v).0;
        assert(c.held() =~= s.held().remove(k));
        vstd::seq_lib::to_multiset_build(s.free, x);
        assert(c.slots() =~= s.slots());
    } else if s.free.len() > 0 {
        let x = s.free[0];
        assert(t.held() =~= seq![x] + s.held());
        assert(s.free =~= seq![x] + s.free.drop_first());
        assert(t.slots() =~= s.slots());
    } else {
        let x = s.used.last().1;
        lemma_items_index(s, s.used.len() - 1);
        assert(t.held() =~= seq![x] + s.held().drop_last());
        assert(s.held() =~= s.held().drop_last() + seq![x]);
        assert(t.slots() =~= s.slots());
    }
}

/// No slot is in the handler twice: the free slots and the held ones are
/// pairwise distinct.
pub open spec fn slots_distinct<S, V>(s: PendingHandlerView<S, V>) -> bool {
    (s.free + s.held()).no_duplicates()
}

/// Two states with the same slots: distinct slots stay distinct.
proof fn lemma_same_slots_distinct<S, V>(s: PendingHandlerView<S, V>, t: PendingHandlerView<S, V>)
    requires
        slots_distinct(s),
        t.slots() == s.slots(),
    ensures
        slots_distinct(t),
        t.free.len() + t.used.len() == s.free.len() + s.used.len(),
{
    broadcast use vstd::seq_lib::lemma_multiset_commutative;
    broadcast use vstd::seq_lib::to_multiset_len;

    let a = s.free + s.held();
    let b = t.free + t.held();
    assert(a.to_multiset() =~= s.slots());
    assert(b.to_multiset() =~= t.slots());
    a.lemma_multiset_has_no_duplicates();
    b.lemma_multiset_has_no_duplicates_conv();
    assert(s.held().len() == s.used.len());
    assert(t.held().len() == t.used.len());
    vstd::seq_lib::to_multiset_len(a);
    vstd::seq_lib::to_multiset_len(b);
}

/// When no slot is given twice, promoting and clearing keep it so, and the
/// number of slots stays the same.
pub proof fn lemma_slots_stay_distinct<S, V>(s: PendingHandlerView<S, V>, v: V)
    requires
        slots_distinct(s),
        s.can_promote(v),
    ensures
        slots_distinct(s.promote(v).0),
        slots_distinct(s.clear(v).0),
        s.promote(v).0.free.len() + s.promote(v).0.used.len() == s.free.len() + s.used.len(),
        s.clear(v).0.free.len() + s.clear(v).0.used.len() == s.free.len() + s.used.len(),
{
    lemma_slots_kept(s, v);
    lemma_same_slots_distinct(s, s.promote(v).0);
    lemma_same_slots_distinct(s, s.clear(v).0);
}

/// Applies promotions (`true`) and clears (`false`), the first one first.
pub open spec fn apply_handler_ops<S, V>(s: PendingHandlerView<S, V>, ops: Seq<(bool, V)>) -> PendingHandlerView<S, V>
    decreases ops.len(),
{
    if ops.len() == 0 {
        s
    } else {
        let next = if ops[0].0 {
            s.promote(ops[0].1).0
        } else {
            s.clear(ops[0].1).0
        };
        apply_handler_ops(next, ops.drop_first())
    }
}

/// From a handler with at least one slot and no slot twice, any sequence
/// of promotions and clears leaves the items holding pairwise distinct
/// slots, each item at most once.
pub proof fn lemma_holders_keep_distinct_slots<S, V>(s: PendingHandlerView<S, V>, ops: Seq<(bool, V)>)
    requires
        s.wf(),
        slots_distinct(s),
        s.free.len() + s.used.len() > 0,
    ensures
        apply_handler_ops(s, ops).wf(),
        slots_distinct(apply_handler_ops(s, ops)),
        apply_handler_ops(s, ops).held().no_duplicates(),
    decreases ops.len(),
{
    if ops.len() > 0 {
        let v = ops[0].1;
        lemma_slots_stay_distinct(s, v);
        if ops[0].0 {
            lemma_promote_wf(s, v);
        } else {
            lemma_clear_wf(s, v);
        }
        let next = if ops[0].0 { s.promote(v).0 } else { s.clear(v).0 };
        lemma_holders_keep_distinct_slots(next, ops.drop_first());
    } else {
        let a = s.free + s.held();
        assert forall|i: int, j: int| 0 <= i < s.held().len() && 0 <= j < s.held().len() && i != j implies s.held()[i]
            != s.held()[j] by {
            assert(a[s.free.len() + i] == s.held()[i]);
            assert(a[s.free.len() + j] == s.held()[j]);
        }
    }
}

impl<S: Copy, I: SetItem> PendingHandler<S, I> {
    /// Every item holds at most one slot.
    pub closed spec fn wf(&self) -> bool {
        self@.wf()
    }

    /// A handler with all of `slots` free, handed out in that order.
    pub fn new(slots: Vec<S>) -> (r: PendingHandler<S, I>)
        ensures
            r.wf(),
            r@.free == slots@,
            r@.used.len() == 0,
    {
        let mut free_slots: VecDeque<S> = VecDeque::new();
        let mut i: usize = 0;
        while i < slots.len()
            invariant
                i <= slots@.len(),
                free_slots@ == slots@.take(i as int),
            decreases slots@.len() - i,
        {
            free_slots.push_back(slots[i]);
            i = i + 1;
            assert(free_slots@ =~= slots@.take(i as int));
        }
        assert(slots@.take(slots@.len() as int) =~= slots@);
        let r = PendingHandler { free_slots, used_slots: Vec::new() };
        assert(r@.items() =~= Seq::<I::V>::empty());
        r
    }

    /// The position of `item` among the items holding a slot.
    fn find(&self, item: &I) -> (r: Option<usize>)
        requires
            self.wf(),
        ensures
            match r {
                Some(k) => self@.items().contains(item@) && self@.items().index_of(item@) == k,
                None => !self@.items().contains(item@),
            },
    {
        let mut i: usize = 0;
        while i < self.used_slots.len()
            invariant
                self.wf(),
                i <= self.used_slots@.len(),
                forall|j: int| 0 <= j < i ==> self@.items()[j] != item@,
            decreases self.used_slots@.len() - i,
        {
            proof {
                lemma_items_index(self@, i as int);
            }
            if self.used_slots[i].0.same(item) {
                proof {
                    assert(self@.items().contains(item@));
                    let j = self@.items().index_of(item@);
                    assert(self@.items()[j] == item@);
                }
                return Some(i);
            }
            i = i + 1;
        }
        proof {
            assert forall|j: int| 0 <= j < self@.items().len() implies self@.items()[j] != item@ by {
                lemma_items_index(self@, j);
            }
        }
        None
    }

    /// A slot for a new item: the first free one, or else the one taken from
    /// the least recently promoted item.
    fn get_new_slot(&mut self) -> (r: S)
        requires
            old(self)@.free.len() + old(self)@.used.len() > 0,
        ensures
            old(self)@.free.len() > 0 ==> {
                &&& r == old(self)@.free[0]
                &&& final(self)@.free == old(self)@.free.drop_first()
                &&& final(self)@.used == old(self)@.used
            },
            old(self)@.free.len() == 0 ==> {
                &&& r == old(self)@.used.last().1
                &&& final(self)@.free == old(self)@.free
                &&& final(self)@.used == old(self)@.used.drop_last()
            },
    {
        match self.free_slots.pop_front() {
            Some(slot) => slot,
            None => {
                let ghost old_used = self.used_slots@;
                let entry = self.used_slots.pop().unwrap();
                proof {
                    assert(self@.used =~= old(self)@.used.drop_last());
                }
                entry.1
            },
        }
    }

    /// Makes `item` the most recently promoted one. Returns the slot it was
    /// given, or nothing when it held one already.
    pub fn promote(&mut self, item: I) -> (r: Option<S>)
        requires
            old(self).wf(),
            old(self)@.can_promote(item@),
        ensures
            final(self).wf(),
            (final(self)@, r) == old(self)@.promote(item@),
    {
        proof {
            lemma_promote_wf(self@, item@);
        }
        match self.find(&item) {
            Some(k) => {
                let entry = self.used_slots.remove(k);
                self.used_slots.insert(0, entry);
                proof {
                    assert(self@.used =~= old(self)@.promote(item@).0.used);
                }
                None
            },
            None => {
                let new_slot = self.get_new_slot();
                self.used_slots.insert(0, (item, new_slot));
                proof {
                    assert(self@.used =~= old(self)@.promote(item@).0.used);
                }
                Some(new_slot)
            },
        }
    }

    /// Takes the slot of `item` back to the free slots and returns it, if
    /// `item` held one.
    pub fn clear(&mut self, item: I) -> (r: Option<S>)
        requires
            old(self).wf(),
        ensures
            final(self).wf(),
            (final(self)@, r) == old(self)@.clear(item@),
    {
        proof {
            lemma_clear_wf(self@, item@);
        }
        match self.find(&item) {
            Some(k) => {
                let entry = self.used_slots.remove(k);
                let slot = entry.1;
                self.free_slots.push_back(slot);
                proof {
                    assert(self@.used =~= old(self)@.clear(item@).0.used);
                }
                Some(slot)
            },
            None => None,
        }
    }
}

} // verus!
