//! A set that keeps track of the N most-recently inserted (or reinserted)
//! entries.
//!
//! The radio chip has a small number of address slots in which it keeps the
//! devices that still have data pending. The host side holds the full set of
//! devices with pending data; the chip holds the most recently seen ones. As
//! nodes often request data several times when waking up, a false negative the
//! first time is acceptable as long as the chip's table is updated by the
//! second time. Every change to the slot assignment is reported as an action
//! that the caller forwards to the chip.
use crate::item::SetItem;
use std::collections::VecDeque;
use vstd::prelude::*;

verus! {

/// A change in the slot table that has to be forwarded to the radio.
#[derive(PartialEq, Debug)]
pub enum MRUSetAction<T> {
    Unchanged,
    ClearSlot(usize),
    SetSlot(usize, T),
}

impl<T: View> View for MRUSetAction<T> {
    type V = MRUSetAction<T::V>;

    open spec fn view(&self) -> MRUSetAction<T::V> {
        match self {
            MRUSetAction::Unchanged => MRUSetAction::Unchanged,
            MRUSetAction::ClearSlot(s) => MRUSetAction::ClearSlot(*s),
            MRUSetAction::SetSlot(s, t) => MRUSetAction::SetSlot(*s, t@),
        }
    }
}

/// The mathematical state of a recency set.
///
/// `entries` holds every entry, the oldest first. `slots[i]` is the slot held
/// by `entries[i]`; the entries that hold a slot are those from index
/// `first_slotted` on. `free` holds the unassigned slots, the next one to be
/// handed out first.
pub struct MRUSetView<V> {
    pub entries: Seq<V>,
    pub slots: Seq<Option<usize>>,
    pub first_slotted: int,
    pub free: Seq<usize>,
    pub capacity: nat,
}

/// Applies an action to a table that maps slots to entries, as the radio does.
pub open spec fn apply_action<V>(table: Map<usize, V>, action: MRUSetAction<V>) -> Map<usize, V> {
    match action {
        MRUSetAction::Unchanged => table,
        MRUSetAction::ClearSlot(s) => table.remove(s),
        MRUSetAction::SetSlot(s, v) => table.insert(s, v),
    }
}

impl<V> MRUSetView<V> {
    /// The set is well formed: slots are a permutation of `0..capacity` spread
    /// over the newest entries and the free list.
    pub open spec fn wf(self) -> bool {
        &&& self.capacity > 0
        &&& self.slots.len() == self.entries.len()
        &&& 0 <= self.first_slotted <= self.entries.len()
        &&& self.entries.no_duplicates()
        &&& forall|i: int|
            0 <= i < self.slots.len() ==> (#[trigger] self.slots[i] is Some <==> i
                >= self.first_slotted)
        &&& forall|i: int|
            0 <= i < self.slots.len() && #[trigger] self.slots[i] is Some ==> self.slots[i]->0
                < self.capacity
        &&& forall|i: int| 0 <= i < self.free.len() ==> #[trigger] self.free[i] < self.capacity
        &&& forall|i: int, j: int|
            0 <= i < self.slots.len() && 0 <= j < self.slots.len() && i != j
                && #[trigger] self.slots[i] is Some && #[trigger] self.slots[j] is Some
                ==> self.slots[i] != self.slots[j]
        &&& self.free.no_duplicates()
        &&& forall|i: int, j: int|
            0 <= i < self.slots.len() && 0 <= j < self.free.len() && #[trigger] self.slots[i]
                is Some ==> self.slots[i]->0 != #[trigger] self.free[j]
        &&& (self.entries.len() - self.first_slotted) + self.free.len() == self.capacity
        &&& self.free.len() > 0 ==> self.first_slotted == 0
    }

    /// The slot held by `v`, if any.
    pub open spec fn slot_of(self, v: V) -> Option<usize> {
        if self.entries.contains(v) {
            self.slots[self.entries.index_of(v)]
        } else {
            None
        }
    }

    /// The table of the radio: which entry holds each slot.
    pub open spec fn slot_table(self) -> Map<usize, V> {
        Map::new(
            |k: usize| exists|i: int| 0 <= i < self.slots.len() && self.slots[i] == Some(k),
            |k: usize|
                self.entries[choose|i: int| 0 <= i < self.slots.len() && self.slots[i] == Some(k)],
        )
    }

    /// Inserting `v`: it becomes the newest entry and gets a slot, a free one
    /// if there is one, else the one of the oldest entry that holds a slot.
    pub open spec fn insert(self, v: V) -> (MRUSetView<V>, MRUSetAction<V>) {
        if self.entries.len() > 0 && self.entries.last() == v {
            (self, MRUSetAction::Unchanged)
        } else {
            let present = self.entries.contains(v);
            let i = self.entries.index_of(v);
            let old_slot = if present {
                self.slots[i]
            } else {
                None
            };
            let e1 = if present {
                self.entries.remove(i)
            } else {
                self.entries
            };
            let s1 = if present {
                self.slots.remove(i)
            } else {
                self.slots
            };
            let b1 = if present && i < self.first_slotted {
                self.first_slotted - 1
            } else {
                self.first_slotted
            };
            match old_slot {
                Some(slot) => (
                    MRUSetView {
                        entries: e1.push(v),
                        slots: s1.push(Some(slot)),
                        first_slotted: b1,
                        free: self.free,
                        capacity: self.capacity,
                    },
                    MRUSetAction::Unchanged,
                ),
                None => if self.free.len() > 0 {
                    let slot = self.free[0];
                    (
                        MRUSetView {
                            entries: e1.push(v),
                            slots: s1.push(Some(slot)),
                            first_slotted: b1,
                            free: self.free.drop_first(),
                            capacity: self.capacity,
                        },
                        MRUSetAction::SetSlot(slot, v),
                    )
                } else {
                    let slot = s1[b1]->0;
                    (
                        MRUSetView {
                            entries: e1.push(v),
                            slots: s1.update(b1, None).push(Some(slot)),
                            first_slotted: b1 + 1,
                            free: self.free,
                            capacity: self.capacity,
                        },
                        MRUSetAction::SetSlot(slot, v),
                    )
                },
            }
        }
    }

    /// Removing `v`: a slot it held goes to the newest entry without one, or
    /// back to the free list when every entry holds a slot.
    pub open spec fn remove(self, v: V) -> (MRUSetView<V>, MRUSetAction<V>) {
        if !self.entries.contains(v) {
            (self, MRUSetAction::Unchanged)
        } else {
            let i = self.entries.index_of(v);
            let e1 = self.entries.remove(i);
            let s1 = self.slots.remove(i);
            let b = self.first_slotted;
            if i < b {
                (
                    MRUSetView {
                        entries: e1,
                        slots: s1,
                        first_slotted: b - 1,
                        free: self.free,
                        capacity: self.capacity,
                    },
                    MRUSetAction::Unchanged,
                )
            } else {
                let slot = self.slots[i]->0;
                if b == 0 {
                    (
                        MRUSetView {
                            entries: e1,
                            slots: s1,
                            first_slotted: b,
                            free: self.free.push(slot),
                            capacity: self.capacity,
                        },
                        MRUSetAction::ClearSlot(slot),
                    )
                } else {
                    (
                        MRUSetView {
                            entries: e1,
                            slots: s1.update(b - 1, Some(slot)),
                            first_slotted: b - 1,
                            free: self.free,
                            capacity: self.capacity,
                        },
                        MRUSetAction::SetSlot(slot, e1[b - 1]),
                    )
                }
            }
        }
    }
}

/// Removing index `i` from a well-formed state, before the entry is put back.
proof fn lemma_remove_index<V>(s: MRUSetView<V>, i: int)
    requires
        s.wf(),
        0 <= i < s.entries.len(),
    ensures
        s.entries.remove(i).len() == s.entries.len() - 1,
        s.slots.remove(i).len() == s.slots.len() - 1,
        forall|k: int| 0 <= k < i ==> #[trigger] s.entries.remove(i)[k] == s.entries[k],
        forall|k: int| i <= k < s.entries.len() - 1 ==> #[trigger] s.entries.remove(i)[k] == s.entries[k + 1],
        forall|k: int| 0 <= k < i ==> #[trigger] s.slots.remove(i)[k] == s.slots[k],
        forall|k: int| i <= k < s.slots.len() - 1 ==> #[trigger] s.slots.remove(i)[k] == s.slots[k + 1],
        s.entries.remove(i).no_duplicates(),
        !s.entries.remove(i).contains(s.entries[i]),
{
    s.entries.remove_ensures(i);
    s.slots.remove_ensures(i);
    let e1 = s.entries.remove(i);
    assert forall|a: int, b: int| 0 <= a < e1.len() && 0 <= b < e1.len() && a != b implies e1[a] != e1[b] by {
        let a0 = if a < i { a } else { a + 1 };
        let b0 = if b < i { b } else { b + 1 };
        assert(e1[a] == s.entries[a0]);
        assert(e1[b] == s.entries[b0]);
    }
    if e1.contains(s.entries[i]) {
        let k = choose|k: int| 0 <= k < e1.len() && e1[k] == s.entries[i];
        let k0 = if k < i { k } else { k + 1 };
        assert(e1[k] == s.entries[k0]);
    }
}

/// Inserting keeps the set well formed.
pub proof fn lemma_insert_wf<V>(s: MRUSetView<V>, v: V)
    requires
        s.wf(),
    ensures
        s.insert(v).0.wf(),
{
    if s.entries.len() > 0 && s.entries.last() == v {
    } else {
        let present = s.entries.contains(v);
        let i = s.entries.index_of(v);
        if present {
            lemma_remove_index(s, i);
        }
        let e1 = if present { s.entries.remove(i) } else { s.entries };
        let s1 = if present { s.slots.remove(i) } else { s.slots };
        let b1 = if present && i < s.first_slotted { s.first_slotted - 1 } else { s.first_slotted };
        let old_slot = if present { s.slots[i] } else { None };
        // the state after taking the entry out
        assert(e1.no_duplicates());
        assert(!e1.contains(v));
        assert(e1.len() == s1.len());
        assert forall|k: int| 0 <= k < s1.len() implies (#[trigger] s1[k] is Some <==> k >= b1) by {
            if present {
                if k < i {
                } else {
                    assert(s1[k] == s.slots[k + 1]);
                }
            }
        }
        assert forall|k: int| 0 <= k < s1.len() && #[trigger] s1[k] is Some implies s1[k]->0 < s.capacity
            && !s.free.contains(s1[k]->0) && (old_slot is Some ==> s1[k] != old_slot) by {
            let k0 = if present && k >= i { k + 1 } else { k };
            assert(s1[k] == s.slots[k0]);
            if s.free.contains(s1[k]->0) {
                let j = choose|j: int| 0 <= j < s.free.len() && s.free[j] == s1[k]->0;
                assert(s.slots[k0] is Some);
                assert(s.slots[k0]->0 != s.free[j]);
            }
            if old_slot is Some {
                assert(k0 != i);
            }
        }
        assert forall|a: int, b: int| 0 <= a < s1.len() && 0 <= b < s1.len() && a != b
            && #[trigger] s1[a] is Some && #[trigger] s1[b] is Some implies s1[a] != s1[b] by {
            let a0 = if present && a >= i { a + 1 } else { a };
            let b0 = if present && b >= i { b + 1 } else { b };
            assert(s1[a] == s.slots[a0]);
            assert(s1[b] == s.slots[b0]);
        }
        if old_slot is Some {
            assert(old_slot->0 < s.capacity);
            assert(!s.free.contains(old_slot->0)) by {
                if s.free.contains(old_slot->0) {
                    let j = choose|j: int| 0 <= j < s.free.len() && s.free[j] == old_slot->0;
                    assert(s.slots[i] is Some);
                }
            }
        }
        let t = s.insert(v).0;
        match old_slot {
            Some(slot) => {
                assert(t.entries == e1.push(v));
                assert(t.slots == s1.push(Some(slot)));
                assert(t.entries.no_duplicates()) by {
                    assert forall|a: int, b: int| 0 <= a < t.entries.len() && 0 <= b < t.entries.len() && a != b
                        implies t.entries[a] != t.entries[b] by {
                        if a == e1.len() { assert(t.entries[b] == e1[b]); }
                        else if b == e1.len() { assert(t.entries[a] == e1[a]); }
                        else { assert(t.entries[a] == e1[a]); assert(t.entries[b] == e1[b]); }
                    }
                }
                assert forall|k: int| 0 <= k < t.slots.len() implies (#[trigger] t.slots[k] is Some <==> k >= t.first_slotted) by {
                    if k < s1.len() { assert(t.slots[k] == s1[k]); }
                }
                assert forall|a: int, j: int| 0 <= a < t.slots.len() && 0 <= j < t.free.len()
                    && #[trigger] t.slots[a] is Some implies t.slots[a]->0 != #[trigger] t.free[j] by {
                    if a < s1.len() { assert(t.slots[a] == s1[a]); assert(s.free.contains(s.free[j])); }
                    else { assert(s.free.contains(s.free[j])); }
                }
                assert forall|a: int, b: int| 0 <= a < t.slots.len() && 0 <= b < t.slots.len() && a != b
                    && #[trigger] t.slots[a] is Some && #[trigger] t.slots[b] is Some implies t.slots[a] != t.slots[b] by {
                    if a < s1.len() { assert(t.slots[a] == s1[a]); }
                    if b < s1.len() { assert(t.slots[b] == s1[b]); }
                }
                assert forall|a: int| 0 <= a < t.slots.len() && #[trigger] t.slots[a] is Some implies t.slots[a]->0 < t.capacity by {
                    if a < s1.len() { assert(t.slots[a] == s1[a]); }
                }
            },
            None => {
                if s.free.len() > 0 {
                    let slot = s.free[0];
                    assert(t.free == s.free.drop_first());
                    assert(t.entries == e1.push(v));
                    assert(t.slots == s1.push(Some(slot)));
                    assert(t.entries.no_duplicates()) by {
                        assert forall|a: int, b: int| 0 <= a < t.entries.len() && 0 <= b < t.entries.len() && a != b
                            implies t.entries[a] != t.entries[b] by {
                            if a == e1.len() { assert(t.entries[b] == e1[b]); }
                            else if b == e1.len() { assert(t.entries[a] == e1[a]); }
                            else { assert(t.entries[a] == e1[a]); assert(t.entries[b] == e1[b]); }
                        }
                    }
                    assert forall|k: int| 0 <= k < t.slots.len() implies (#[trigger] t.slots[k] is Some <==> k >= t.first_slotted) by {
                        if k < s1.len() { assert(t.slots[k] == s1[k]); }
                    }
                    assert forall|a: int, j: int| 0 <= a < t.slots.len() && 0 <= j < t.free.len()
                        && #[trigger] t.slots[a] is Some implies t.slots[a]->0 != #[trigger] t.free[j] by {
                        assert(t.free[j] == s.free[j + 1]);
                        assert(s.free.contains(s.free[j + 1]));
                        if a < s1.len() { assert(t.slots[a] == s1[a]); }
                        else { assert(s.free[0] != s.free[j + 1]); }
                    }
                    assert forall|a: int, b: int| 0 <= a < t.slots.len() && 0 <= b < t.slots.len() && a != b
                        && #[trigger] t.slots[a] is Some && #[trigger] t.slots[b] is Some implies t.slots[a] != t.slots[b] by {
                        assert(s.free.contains(s.free[0]));
                        if a < s1.len() { assert(t.slots[a] == s1[a]); }
                        if b < s1.len() { assert(t.slots[b] == s1[b]); }
                    }
                    assert forall|a: int| 0 <= a < t.slots.len() && #[trigger] t.slots[a] is Some implies t.slots[a]->0 < t.capacity by {
                        if a < s1.len() { assert(t.slots[a] == s1[a]); }
                    }
                    assert forall|a: int| 0 <= a < t.free.len() implies #[trigger] t.free[a] < t.capacity by {
                        assert(t.free[a] == s.free[a + 1]);
                    }
                    assert(t.free.no_duplicates()) by {
                        assert forall|a: int, b: int| 0 <= a < t.free.len() && 0 <= b < t.free.len() && a != b
                            implies t.free[a] != t.free[b] by {
                            assert(t.free[a] == s.free[a + 1]);
                            assert(t.free[b] == s.free[b + 1]);
                        }
                    }
                } else {
                    assert(s1.len() > b1);
                    assert(s1[b1] is Some);
                    let slot = s1[b1]->0;
                    let s2 = s1.update(b1, None);
                    assert(t.entries == e1.push(v));
                    assert(t.slots == s2.push(Some(slot)));
                    assert(t.entries.no_duplicates()) by {
                        assert forall|a: int, b: int| 0 <= a < t.entries.len() && 0 <= b < t.entries.len() && a != b
                            implies t.entries[a] != t.entries[b] by {
                            if a == e1.len() { assert(t.entries[b] == e1[b]); }
                            else if b == e1.len() { assert(t.entries[a] == e1[a]); }
                            else { assert(t.entries[a] == e1[a]); assert(t.entries[b] == e1[b]); }
                        }
                    }
                    assert forall|k: int| 0 <= k < t.slots.len() implies (#[trigger] t.slots[k] is Some <==> k >= t.first_slotted) by {
                        if k < s1.len() && k != b1 { assert(t.slots[k] == s1[k]); }
                    }
                    assert forall|a: int, b: int| 0 <= a < t.slots.len() && 0 <= b < t.slots.len() && a != b
                        && #[trigger] t.slots[a] is Some && #[trigger] t.slots[b] is Some implies t.slots[a] != t.slots[b] by {
                        if a < s1.len() { assert(t.slots[a] == s1[a]); }
                        if b < s1.len() { assert(t.slots[b] == s1[b]); }
                    }
                    assert forall|a: int| 0 <= a < t.slots.len() && #[trigger] t.slots[a] is Some implies t.slots[a]->0 < t.capacity by {
                        if a < s1.len() { assert(t.slots[a] == s1[a]); }
                    }
                }
            },
        }
    }
}

/// Removing keeps the set well formed.
pub proof fn lemma_remove_wf<V>(s: MRUSetView<V>, v: V)
    requires
        s.wf(),
    ensures
        s.remove(v).0.wf(),
{
    if s.entries.contains(v) {
        let i = s.entries.index_of(v);
        lemma_remove_index(s, i);
        let e1 = s.entries.remove(i);
        let s1 = s.slots.remove(i);
        let b = s.first_slotted;
        let t = s.remove(v).0;
        assert forall|a: int, c: int| 0 <= a < s1.len() && 0 <= c < s1.len() && a != c
            && #[trigger] s1[a] is Some && #[trigger] s1[c] is Some implies s1[a] != s1[c] by {
            let a0 = if a >= i { a + 1 } else { a };
            let c0 = if c >= i { c + 1 } else { c };
            assert(s1[a] == s.slots[a0]);
            assert(s1[c] == s.slots[c0]);
        }
        assert forall|k: int| 0 <= k < s1.len() && #[trigger] s1[k] is Some implies s1[k]->0 < s.capacity
            && !s.free.contains(s1[k]->0) && (s.slots[i] is Some ==> s1[k] != s.slots[i]) by {
            let k0 = if k >= i { k + 1 } else { k };
            assert(s1[k] == s.slots[k0]);
            if s.free.contains(s1[k]->0) {
                let j = choose|j: int| 0 <= j < s.free.len() && s.free[j] == s1[k]->0;
                assert(s.slots[k0] is Some);
            }
        }
        if i < b {
            assert forall|k: int| 0 <= k < t.slots.len() implies (#[trigger] t.slots[k] is Some <==> k >= t.first_slotted) by {
                if k >= i { assert(t.slots[k] == s.slots[k + 1]); }
            }
        } else {
            let slot = s.slots[i]->0;
            assert(s.slots[i] is Some);
            assert(!s.free.contains(slot)) by {
                if s.free.contains(slot) {
                    let j = choose|j: int| 0 <= j < s.free.len() && s.free[j] == slot;
                }
            }
            if b == 0 {
                assert forall|k: int| 0 <= k < t.slots.len() implies (#[trigger] t.slots[k] is Some <==> k >= t.first_slotted) by {
                    if k >= i { assert(t.slots[k] == s.slots[k + 1]); }
                }
                assert forall|a: int, j: int| 0 <= a < t.slots.len() && 0 <= j < t.free.len()
                    && #[trigger] t.slots[a] is Some implies t.slots[a]->0 != #[trigger] t.free[j] by {
                    if j < s.free.len() { assert(s.free.contains(s.free[j])); }
                }
                assert(t.free.no_duplicates()) by {
                    assert forall|a: int, c: int| 0 <= a < t.free.len() && 0 <= c < t.free.len() && a != c
                        implies t.free[a] != t.free[c] by {
                        if a < s.free.len() { assert(s.free.contains(s.free[a])); }
                        if c < s.free.len() { assert(s.free.contains(s.free[c])); }
                    }
                }
                assert forall|a: int| 0 <= a < t.free.len() implies #[trigger] t.free[a] < t.capacity by {
                }
            } else {
                assert(s1[b - 1] == s.slots[b - 1]);
                assert forall|k: int| 0 <= k < t.slots.len() implies (#[trigger] t.slots[k] is Some <==> k >= t.first_slotted) by {
                    if k >= i { assert(s1[k] == s.slots[k + 1]); }
                    if k != b - 1 { assert(t.slots[k] == s1[k]); }
                }
                assert forall|a: int, c: int| 0 <= a < t.slots.len() && 0 <= c < t.slots.len() && a != c
                    && #[trigger] t.slots[a] is Some && #[trigger] t.slots[c] is Some implies t.slots[a] != t.slots[c] by {
                    if a != b - 1 { assert(t.slots[a] == s1[a]); }
                    if c != b - 1 { assert(t.slots[c] == s1[c]); }
                }
                assert forall|a: int, j: int| 0 <= a < t.slots.len() && 0 <= j < t.free.len()
                    && #[trigger] t.slots[a] is Some implies t.slots[a]->0 != #[trigger] t.free[j] by {
                    assert(s.free.contains(s.free[j]));
                    if a != b - 1 { assert(t.slots[a] == s1[a]); }
                }
                assert forall|a: int| 0 <= a < t.slots.len() && #[trigger] t.slots[a] is Some implies t.slots[a]->0 < t.capacity by {
                    if a != b - 1 { assert(t.slots[a] == s1[a]); }
                }
            }
        }
    }
}

/// In a well formed state, the slot table maps the slot of each entry to it.
proof fn lemma_table_entry<V>(s: MRUSetView<V>, i: int)
    requires
        s.wf(),
        0 <= i < s.slots.len(),
        s.slots[i] is Some,
    ensures
        s.slot_table().contains_key(s.slots[i]->0),
        s.slot_table()[s.slots[i]->0] == s.entries[i],
{
    let k = s.slots[i]->0;
    assert(s.slots[i] == Some(k));
    let j = choose|j: int| 0 <= j < s.slots.len() && s.slots[j] == Some(k);
    assert(s.slots[j] is Some);
    if j != i {
        assert(s.slots[i] != s.slots[j]);
    }
}

/// Each slot in the table is held by some entry.
proof fn lemma_table_key<V>(s: MRUSetView<V>, k: usize) -> (i: int)
    requires
        s.wf(),
        s.slot_table().contains_key(k),
    ensures
        0 <= i < s.slots.len(),
        s.slots[i] == Some(k),
        s.slot_table()[k] == s.entries[i],
{
    let i = choose|i: int| 0 <= i < s.slots.len() && s.slots[i] == Some(k);
    lemma_table_entry(s, i);
    i
}

/// Two well formed states whose entries hold the same slots have the same
/// table, up to the `pairs` relation given by `holds`.
proof fn lemma_table_equal<V>(t: MRUSetView<V>, m: Map<usize, V>)
    requires
        t.wf(),
        forall|i: int|
            0 <= i < t.slots.len() && #[trigger] t.slots[i] is Some ==> m.contains_key(t.slots[i]->0)
                && m[t.slots[i]->0] == t.entries[i],
        forall|k: usize|
            #[trigger] m.contains_key(k) ==> exists|i: int| 0 <= i < t.slots.len() && t.slots[i] == Some(k),
    ensures
        t.slot_table() == m,
{
    assert forall|k: usize| t.slot_table().contains_key(k) <==> #[trigger] m.contains_key(k) by {
        if t.slot_table().contains_key(k) {
            let i = lemma_table_key(t, k);
            assert(t.slots[i] is Some);
        }
        if m.contains_key(k) {
            let i = choose|i: int| 0 <= i < t.slots.len() && t.slots[i] == Some(k);
            assert(t.slots[i] is Some);
        }
    }
    assert forall|k: usize| #[trigger] t.slot_table().contains_key(k) implies t.slot_table()[k] == m[k] by {
        let i = lemma_table_key(t, k);
        assert(t.slots[i] is Some);
    }
    assert(t.slot_table() =~= m);
}

/// The table of the radio follows the set: applying the action returned by
/// an insertion to the table of the set before it gives the table after it.
pub proof fn lemma_insert_table<V>(s: MRUSetView<V>, v: V)
    requires
        s.wf(),
    ensures
        s.insert(v).0.slot_table() == apply_action(s.slot_table(), s.insert(v).1),
{
    lemma_insert_wf(s, v);
    let (t, a) = s.insert(v);
    let m = apply_action(s.slot_table(), a);
    if s.entries.len() > 0 && s.entries.last() == v {
    } else {
        let present = s.entries.contains(v);
        let i = s.entries.index_of(v);
        if present {
            lemma_remove_index(s, i);
        }
        let e1 = if present { s.entries.remove(i) } else { s.entries };
        let s1 = if present { s.slots.remove(i) } else { s.slots };
        let b1 = if present && i < s.first_slotted { s.first_slotted - 1 } else { s.first_slotted };
        let old_slot = if present { s.slots[i] } else { None };
        // index in s of index k of s1
        assert forall|k: int| 0 <= k < s1.len() implies #[trigger] s1[k] == s.slots[if present && k >= i { k + 1 } else { k }]
            && e1[k] == s.entries[if present && k >= i { k + 1 } else { k }] by {
        }
        assert forall|j: int| 0 <= j < t.slots.len() && #[trigger] t.slots[j] is Some implies m.contains_key(t.slots[j]->0)
            && m[t.slots[j]->0] == t.entries[j] by {
            if j == e1.len() {
                if old_slot is Some {
                    lemma_table_entry(s, i);
                }
            } else {
                let j0 = if present && j >= i { j + 1 } else { j };
                assert(t.entries[j] == e1[j]);
                if old_slot is None && s.free.len() == 0 && j == b1 {
                } else {
                    assert(t.slots[j] == s1[j]);
                    lemma_table_entry(s, j0);
                    match a {
                        MRUSetAction::SetSlot(x, y) => {
                            if old_slot is None && s.free.len() > 0 {
                                assert(s.free.contains(s.free[0]));
                                assert(s.slots[j0]->0 != s.free[0]);
                            } else {
                                assert(s1[b1] is Some);
                                assert(j != b1);
                                assert(s1[j] != s1[b1]);
                            }
                        },
                        _ => {},
                    }
                }
            }
        }
        assert forall|k: usize| #[trigger] m.contains_key(k) implies exists|j: int| 0 <= j < t.slots.len() && t.slots[j] == Some(k) by {
            let last = e1.len() as int;
            if t.slots[last] == Some(k) {
            } else {
                assert(s.slot_table().contains_key(k));
                let i0 = lemma_table_key(s, k);
                if present && i0 == i {
                    assert(old_slot == Some(k));
                } else {
                    let j = if present && i0 > i { i0 - 1 } else { i0 };
                    assert(s1[j] == s.slots[i0]);
                    if old_slot is None && s.free.len() == 0 && j == b1 {
                        assert(t.slots[last] == Some(k));
                    } else {
                        assert(t.slots[j] == s1[j]);
                    }
                }
            }
        }
    }
    lemma_table_equal(t, m);
}

/// Likewise for removals.
pub proof fn lemma_remove_table<V>(s: MRUSetView<V>, v: V)
    requires
        s.wf(),
    ensures
        s.remove(v).0.slot_table() == apply_action(s.slot_table(), s.remove(v).1),
{
    lemma_remove_wf(s, v);
    let (t, a) = s.remove(v);
    let m = apply_action(s.slot_table(), a);
    if s.entries.contains(v) {
        let i = s.entries.index_of(v);
        lemma_remove_index(s, i);
        let e1 = s.entries.remove(i);
        let s1 = s.slots.remove(i);
        let b = s.first_slotted;
        assert forall|k: int| 0 <= k < s1.len() implies #[trigger] s1[k] == s.slots[if k >= i { k + 1 } else { k }]
            && e1[k] == s.entries[if k >= i { k + 1 } else { k }] by {
        }
        assert forall|j: int| 0 <= j < t.slots.len() && #[trigger] t.slots[j] is Some implies m.contains_key(t.slots[j]->0)
            && m[t.slots[j]->0] == t.entries[j] by {
            let j0 = if j >= i { j + 1 } else { j };
            if i >= b && b != 0 && j == b - 1 {
            } else {
                assert(t.slots[j] == s1[j]);
                lemma_table_entry(s, j0);
                if i >= b {
                    lemma_table_entry(s, i);
                    assert(s.slots[i] is Some);
                    assert(s.slots[j0] != s.slots[i]);
                }
            }
        }
        assert forall|k: usize| #[trigger] m.contains_key(k) implies exists|j: int| 0 <= j < t.slots.len() && t.slots[j] == Some(k) by {
            if i >= b && b != 0 && t.slots[b - 1] == Some(k) {
            } else {
                assert(s.slot_table().contains_key(k));
                let i0 = lemma_table_key(s, k);
                if i0 == i {
                    assert(s.slots[i] is Some);
                } else {
                    let j = if i0 > i { i0 - 1 } else { i0 };
                    assert(s1[j] == s.slots[i0]);
                    if i >= b && b != 0 && j == b - 1 {
                        assert(s1[b - 1] == s.slots[b - 1]);
                        assert(s.slots[b - 1] is None);
                    } else {
                        assert(t.slots[j] == s1[j]);
                    }
                }
            }
        }
    }
    lemma_table_equal(t, m);
}

/// After an insertion the item is the newest entry, holds a slot, and the
/// set holds what it held before plus the item.
pub proof fn lemma_insert_effect<V>(s: MRUSetView<V>, v: V)
    requires
        s.wf(),
    ensures
        s.insert(v).0.entries.last() == v,
        s.insert(v).0.slot_of(v) is Some,
        s.insert(v).0.entries.to_set() == s.entries.to_set().insert(v),
        s.insert(v).0.entries.len() == if s.entries.contains(v) {
            s.entries.len()
        } else {
            s.entries.len() + 1
        },
{
    lemma_insert_wf(s, v);
    let t = s.insert(v).0;
    if s.entries.len() > 0 && s.entries.last() == v {
        assert(s.entries.contains(v));
        assert(s.entries.to_set() =~= s.entries.to_set().insert(v));
        lemma_index_of_unique(s.entries, s.entries.len() - 1);
    } else {
        let present = s.entries.contains(v);
        let i = s.entries.index_of(v);
        if present {
            lemma_remove_index(s, i);
        }
        let e1 = if present { s.entries.remove(i) } else { s.entries };
        assert(t.entries == e1.push(v));
        lemma_index_of_unique(t.entries, t.entries.len() - 1);
        assert forall|x: V| t.entries.to_set().contains(x) <==> s.entries.to_set().insert(v).contains(x) by {
            if t.entries.contains(x) && x != v {
                let k = choose|k: int| 0 <= k < t.entries.len() && t.entries[k] == x;
                let k0 = if present && k >= i { k + 1 } else { k };
                assert(s.entries[k0] == x);
            }
            if s.entries.contains(x) && x != v {
                let k = choose|k: int| 0 <= k < s.entries.len() && s.entries[k] == x;
                let j = if present && k > i { k - 1 } else { k };
                assert(t.entries[j] == x);
            }
        }
        assert(t.entries.to_set() =~= s.entries.to_set().insert(v));
    }
}

/// After a removal the item is no longer in the set, and the set holds what
/// it held before but the item.
pub proof fn lemma_remove_effect<V>(s: MRUSetView<V>, v: V)
    requires
        s.wf(),
    ensures
        !s.remove(v).0.entries.contains(v),
        s.remove(v).0.slot_of(v) is None,
        s.remove(v).0.entries.to_set() == s.entries.to_set().remove(v),
{
    lemma_remove_wf(s, v);
    let t = s.remove(v).0;
    if s.entries.contains(v) {
        let i = s.entries.index_of(v);
        lemma_remove_index(s, i);
        assert forall|x: V| t.entries.to_set().contains(x) <==> s.entries.to_set().remove(v).contains(x) by {
            if t.entries.contains(x) {
                let k = choose|k: int| 0 <= k < t.entries.len() && t.entries[k] == x;
                let k0 = if k >= i { k + 1 } else { k };
                assert(s.entries[k0] == x);
            }
            if s.entries.contains(x) && x != v {
                let k = choose|k: int| 0 <= k < s.entries.len() && s.entries[k] == x;
                let j = if k > i { k - 1 } else { k };
                assert(t.entries[j] == x);
            }
        }
        assert(t.entries.to_set() =~= s.entries.to_set().remove(v));
    } else {
        assert(s.entries.to_set() =~= s.entries.to_set().remove(v));
    }
}

/// The entries that hold a slot are exactly the `capacity` most recently
/// inserted ones (all of them when there are fewer).
pub proof fn lemma_newest_hold_slots<V>(s: MRUSetView<V>)
    requires
        s.wf(),
    ensures
        forall|i: int|
            0 <= i < s.entries.len() ==> (#[trigger] s.slots[i] is Some <==> (s.entries.len() <= s.capacity
                || i >= s.entries.len() - s.capacity)),
{
}

/// No two entries hold the same slot, and every slot is below the capacity.
pub proof fn lemma_slots_distinct<V>(s: MRUSetView<V>, v: V, w: V)
    requires
        s.wf(),
        v != w,
        s.slot_of(v) is Some,
    ensures
        s.slot_of(v)->0 < s.capacity,
        s.slot_of(v) != s.slot_of(w),
{
    let i = s.entries.index_of(v);
    assert(s.slots[i] is Some);
    if s.entries.contains(w) {
        let j = s.entries.index_of(w);
    }
}

/// A set that keeps the most recently inserted entries in a fixed number of
/// slots.
pub struct MRUSet<T> {
    entries: Vec<T>,
    slots: Vec<Option<usize>>,
    first_slotted: usize,
    free_slots: VecDeque<usize>,
    num_slots: usize,
}

impl<T: View> View for MRUSet<T> {
    type V = MRUSetView<T::V>;

    closed spec fn view(&self) -> MRUSetView<T::V> {
        MRUSetView {
            entries: self.entries@.map_values(|t: T| t@),
            slots: self.slots@,
            first_slotted: self.first_slotted as int,
            free: self.free_slots@,
            capacity: self.num_slots as nat,
        }
    }
}

proof fn lemma_index_of_unique<V>(s: Seq<V>, i: int)
    requires
        s.no_duplicates(),
        0 <= i < s.len(),
    ensures
        s.contains(s[i]),
        s.index_of(s[i]) == i,
{
    assert(s.contains(s[i]));
    let j = s.index_of(s[i]);
    assert(0 <= j < s.len() && s[j] == s[i]);
}

impl<T: SetItem> MRUSet<T> {
    pub closed spec fn wf(&self) -> bool {
        &&& self@.wf()
        &&& self.entries@.len() == self.slots@.len()
    }

    /// An empty set with `num_slots` slots, all free.
    pub fn new(num_slots: usize) -> (r: MRUSet<T>)
        requires
            num_slots > 0,
        ensures
            r.wf(),
            r@.entries.len() == 0,
            r@.slots.len() == 0,
            r@.first_slotted == 0,
            r@.capacity == num_slots,
            r@.free == Seq::new(num_slots as nat, |i: int| i as usize),
    {
        let mut free_slots: VecDeque<usize> = VecDeque::new();
        let mut i: usize = 0;
        while i < num_slots
            invariant
                i <= num_slots,
                free_slots@ == Seq::new(i as nat, |j: int| j as usize),
            decreases num_slots - i,
        {
            free_slots.push_back(i);
            i = i + 1;
            assert(free_slots@ =~= Seq::new(i as nat, |j: int| j as usize));
        }
        let r = MRUSet {
            entries: Vec::new(),
            slots: Vec::new(),
            first_slotted: 0,
            free_slots,
            num_slots,
        };
        assert(r@.entries =~= Seq::<T::V>::empty());
        r
    }

    /// The index of `item` among the entries.
    fn find(&self, item: &T) -> (r: Option<usize>)
        requires
            self.wf(),
        ensures
            match r {
                Some(i) => i < self@.entries.len() && self@.entries[i as int] == item@
                    && self@.entries.contains(item@) && self@.entries.index_of(item@) == i,
                None => !self@.entries.contains(item@),
            },
    {
        let mut i: usize = 0;
        while i < self.entries.len()
            invariant
                self.wf(),
                i <= self.entries@.len(),
                forall|j: int| 0 <= j < i ==> self@.entries[j] != item@,
            decreases self.entries@.len() - i,
        {
            if self.entries[i].same(item) {
                proof {
                    lemma_index_of_unique(self@.entries, i as int);
                }
                return Some(i);
            }
            i = i + 1;
        }
        None
    }

    /// Whether `item` is in the set.
    pub fn contains(&self, item: &T) -> (r: bool)
        requires
            self.wf(),
        ensures
            r == self@.entries.contains(item@),
    {
        self.find(item).is_some()
    }

    /// The slot held by `item`, if it holds one.
    pub fn has_slot(&self, item: &T) -> (r: Option<usize>)
        requires
            self.wf(),
        ensures
            r == self@.slot_of(item@),
    {
        match self.find(item) {
            Some(i) => self.slots[i],
            None => None,
        }
    }

    /// The number of entries in the set.
    pub fn len(&self) -> (r: usize)
        requires
            self.wf(),
        ensures
            r == self@.entries.len(),
    {
        self.entries.len()
    }

    /// Takes the entry at index `i` out of the set, keeping its slot.
    fn take_out(&mut self, i: usize) -> (r: Option<usize>)
        requires
            old(self).wf(),
            i < old(self)@.entries.len(),
        ensures
            r == old(self)@.slots[i as int],
            final(self)@.entries == old(self)@.entries.remove(i as int),
            final(self)@.slots == old(self)@.slots.remove(i as int),
            final(self)@.first_slotted == if i < old(self)@.first_slotted {
                old(self)@.first_slotted - 1
            } else {
                old(self)@.first_slotted
            },
            final(self)@.free == old(self)@.free,
            final(self)@.capacity == old(self)@.capacity,
            final(self).entries@.len() == final(self).slots@.len(),
    {
        let ghost old_entries = self.entries@;
        let slot = self.slots[i];
        self.entries.remove(i);
        self.slots.remove(i);
        if i < self.first_slotted {
            self.first_slotted = self.first_slotted - 1;
        }
        proof {
            old_entries.remove_ensures(i as int);
            assert(self@.entries =~= old_entries.map_values(|t: T| t@).remove(i as int));
        }
        slot
    }

    /// Makes `item` the newest entry and gives it a slot. The returned action
    /// tells which slot the radio must now give to `item`, if that changed.
    pub fn insert(&mut self, item: &T) -> (r: MRUSetAction<T>)
        requires
            old(self).wf(),
        ensures
            final(self).wf(),
            (final(self)@, r@) == old(self)@.insert(item@),
    {
        let ghost old_view = self@;
        let n = self.entries.len();
        if n > 0 && self.entries[n - 1].same(item) {
            return MRUSetAction::Unchanged;
        }
        proof {
            lemma_insert_wf(old_view, item@);
        }
        let old_slot = match self.find(item) {
            Some(i) => self.take_out(i),
            None => None,
        };
        let ghost mid_entries = self.entries@;
        let r = match old_slot {
            Some(slot) => {
                self.entries.push(item.duplicate());
                self.slots.push(Some(slot));
                MRUSetAction::Unchanged
            },
            None => {
                match self.free_slots.pop_front() {
                    Some(slot) => {
                        self.entries.push(item.duplicate());
                        self.slots.push(Some(slot));
                        MRUSetAction::SetSlot(slot, item.duplicate())
                    },
                    None => {
                        let b = self.first_slotted;
                        let slot = self.slots[b].unwrap();
                        self.slots.set(b, None);
                        self.first_slotted = b + 1;
                        self.entries.push(item.duplicate());
                        self.slots.push(Some(slot));
                        MRUSetAction::SetSlot(slot, item.duplicate())
                    },
                }
            },
        };
        proof {
            assert(self@.entries =~= mid_entries.map_values(|t: T| t@).push(item@));
            assert(self@.free =~= old_view.insert(item@).0.free);
            assert(self@.slots =~= old_view.insert(item@).0.slots);
            assert(self@.entries =~= old_view.insert(item@).0.entries);
        }
        r
    }

    /// Removes `item` from the set. The returned action tells what the radio
    /// must do with the slot that `item` held, if it held one.
    pub fn remove(&mut self, item: &T) -> (r: MRUSetAction<T>)
        requires
            old(self).wf(),
        ensures
            final(self).wf(),
            (final(self)@, r@) == old(self)@.remove(item@),
    {
        let ghost old_view = self@;
        proof {
            lemma_remove_wf(old_view, item@);
        }
        let i = match self.find(item) {
            Some(i) => i,
            None => {
                return MRUSetAction::Unchanged;
            },
        };
        let n = self.entries.len();
        let b = self.first_slotted;
        let slot = self.take_out(i);
        match slot {
            None => MRUSetAction::Unchanged,
            Some(slot) => {
                if b == 0 {
                    self.free_slots.push_back(slot);
                    MRUSetAction::ClearSlot(slot)
                } else {
                    self.slots.set(b - 1, Some(slot));
                    self.first_slotted = b - 1;
                    let next = self.entries[b - 1].duplicate();
                    proof {
                        assert(self@.slots =~= old_view.remove(item@).0.slots);
                    }
                    MRUSetAction::SetSlot(slot, next)
                }
            },
        }
    }

    /// The number of slots that no entry holds.
    pub fn num_free_slots(&self) -> (r: usize)
        requires
            self.wf(),
        ensures
            r == self@.free.len(),
    {
        self.free_slots.len()
    }
}


/// Applies a sequence of insertions (`true`) and removals (`false`) to a
/// recency set, the first one first.
pub open spec fn apply_ops<V>(s: MRUSetView<V>, ops: Seq<(bool, V)>) -> MRUSetView<V>
    decreases ops.len(),
{
    if ops.len() == 0 {
        s
    } else {
        let next = if ops[0].0 {
            s.insert(ops[0].1).0
        } else {
            s.remove(ops[0].1).0
        };
        apply_ops(next, ops.drop_first())
    }
}

/// The same insertions and removals applied to a plain set.
pub open spec fn apply_set_ops<V>(m: Set<V>, ops: Seq<(bool, V)>) -> Set<V>
    decreases ops.len(),
{
    if ops.len() == 0 {
        m
    } else {
        let next = if ops[0].0 {
            m.insert(ops[0].1)
        } else {
            m.remove(ops[0].1)
        };
        apply_set_ops(next, ops.drop_first())
    }
}

/// Over any sequence of insertions and removals, the recency set stays well
/// formed and holds exactly the members a plain set would; the members
/// holding slots are the `capacity` most recently inserted ones, only
/// members hold slots, and their slots are distinct and below the capacity.
pub proof fn lemma_ops_membership<V>(s: MRUSetView<V>, ops: Seq<(bool, V)>)
    requires
        s.wf(),
    ensures
        apply_ops(s, ops).wf(),
        apply_ops(s, ops).entries.to_set() == apply_set_ops(s.entries.to_set(), ops),
        forall|i: int|
            0 <= i < apply_ops(s, ops).entries.len() ==> (#[trigger] apply_ops(s, ops).slots[i] is Some <==> (
            apply_ops(s, ops).entries.len() <= apply_ops(s, ops).capacity || i >= apply_ops(s, ops).entries.len()
                - apply_ops(s, ops).capacity)),
        forall|v: V| #[trigger] apply_ops(s, ops).slot_of(v) is Some ==> apply_ops(s, ops).entries.contains(v)
            && apply_ops(s, ops).slot_of(v)->0 < apply_ops(s, ops).capacity,
        forall|v: V, w: V|
            v != w && #[trigger] apply_ops(s, ops).slot_of(v) is Some ==> apply_ops(s, ops).slot_of(v)
                != #[trigger] apply_ops(s, ops).slot_of(w),
    decreases ops.len(),
{
    if ops.len() > 0 {
        let next = if ops[0].0 {
            lemma_insert_wf(s, ops[0].1);
            lemma_insert_effect(s, ops[0].1);
            s.insert(ops[0].1).0
        } else {
            lemma_remove_wf(s, ops[0].1);
            lemma_remove_effect(s, ops[0].1);
            s.remove(ops[0].1).0
        };
        lemma_ops_membership(next, ops.drop_first());
    } else {
        lemma_newest_hold_slots(s);
        assert forall|v: V| #[trigger] s.slot_of(v) is Some implies s.entries.contains(v) && s.slot_of(v)->0
            < s.capacity by {
            let i = s.entries.index_of(v);
            assert(s.slots[i] is Some);
        }
        assert forall|v: V, w: V| v != w && #[trigger] s.slot_of(v) is Some implies s.slot_of(v)
            != #[trigger] s.slot_of(w) by {
            lemma_slots_distinct(s, v, w);
        }
    }
}

} // verus!
