//! The host's copy of one of the radio's pending-data tables: the set of
//! addresses with data pending, the table slots the radio holds (the most
//! recently promoted addresses), and which slots still have to be written to
//! the radio.
use crate::item::SetItem;
use crate::unique_key::UniqueKey;
use crate::waker_store::WakerStore;
use std::task::Context;
use vstd::prelude::*;

verus! {

/// A slot of the table: whether the radio's copy is out of date, and the
/// address it holds.
struct PendingTableEntry<T> {
    dirty: bool,
    value: Option<T>,
}

/// A slot, viewed.
pub struct SlotView<V> {
    pub dirty: bool,
    pub value: Option<V>,
}

/// A slot to write to the radio: the key its result is reported with, its
/// index and what it holds.
#[derive(Debug, PartialEq, Eq)]
pub struct PendingTableUpdate<T> {
    pub key: UniqueKey,
    pub index: usize,
    pub value: Option<T>,
}

/// The state of a pending table: the addresses with data pending, the
/// slots, the slot indices in the order they are overwritten (first the
/// first), and the slot being written to the radio.
pub struct PendingTableView<V> {
    pub values: Seq<V>,
    pub table: Seq<SlotView<V>>,
    pub order: Seq<usize>,
    pub updating: Option<(UniqueKey, usize)>,
}

/// Whether slot `i` holds `v`.
pub open spec fn holds<V>(table: Seq<SlotView<V>>, i: int, v: V) -> bool {
    0 <= i < table.len() && table[i].value == Some(v)
}

/// Whether some slot holds `v`.
pub open spec fn in_table<V>(table: Seq<SlotView<V>>, v: V) -> bool {
    exists|i: int| holds(table, i, v)
}

impl<V> PendingTableView<V> {
    /// The invariant: no address is pending twice; the order lists every slot
    /// once; no address is in two slots, and every address in a slot is
    /// pending; the slot being written exists.
    pub open spec fn wf(self) -> bool {
        &&& self.values.no_duplicates()
        &&& self.order.len() == self.table.len()
        &&& self.order.no_duplicates()
        &&& forall|k: int| 0 <= k < self.order.len() ==> #[trigger] self.order[k] < self.table.len()
        &&& forall|i: usize| i < self.table.len() ==> #[trigger] self.order.contains(i)
        &&& forall|i: int, j: int|
            #![trigger self.table[i], self.table[j]]
            0 <= i < j < self.table.len() && self.table[i].value is Some ==> self.table[i].value != self.table[j].value
        &&& forall|i: int|
            #![trigger self.table[i]]
            0 <= i < self.table.len() && self.table[i].value is Some ==> self.values.contains(self.table[i].value->Some_0)
        &&& self.updating matches Some((_, i)) ==> i < self.table.len()
    }

    /// The slot that holds `v`, if any.
    pub open spec fn index_of(self, v: V) -> Option<int> {
        if in_table(self.table, v) {
            Some(choose|i: int| holds(self.table, i, v))
        } else {
            None
        }
    }
}

/// The order with `i` moved to the end (last to be overwritten).
pub open spec fn promoted_order(order: Seq<usize>, i: usize) -> Seq<usize> {
    order.remove(order.index_of(i)).push(i)
}

/// The order with `i` moved to the front (first to be overwritten).
pub open spec fn demoted_order(order: Seq<usize>, i: usize) -> Seq<usize> {
    seq![i] + order.remove(order.index_of(i))
}

/// Whether `order` lists each of the `n` slot indices exactly once.
pub open spec fn is_permutation(order: Seq<usize>, n: nat) -> bool {
    &&& order.len() == n
    &&& order.no_duplicates()
    &&& forall|k: int| 0 <= k < order.len() ==> #[trigger] order[k] < n
    &&& forall|i: usize| i < n ==> #[trigger] order.contains(i)
}

/// The first dirty slot, if any.
pub open spec fn first_dirty<V>(table: Seq<SlotView<V>>) -> Option<int>
    decreases table.len(),
{
    if table.len() == 0 {
        None
    } else if table[0].dirty {
        Some(0)
    } else {
        match first_dirty(table.drop_first()) {
            Some(i) => Some(i + 1),
            None => None,
        }
    }
}

/// The first dirty slot is dirty and no slot before it is; without one, no
/// slot is dirty.
pub proof fn lemma_first_dirty<V>(table: Seq<SlotView<V>>)
    ensures
        match first_dirty(table) {
            Some(i) => 0 <= i < table.len() && table[i].dirty && forall|j: int| 0 <= j < i ==> !#[trigger] table[j].dirty,
            None => forall|j: int| 0 <= j < table.len() ==> !#[trigger] table[j].dirty,
        },
    decreases table.len(),
{
    if table.len() > 0 && !table[0].dirty {
        let rest = table.drop_first();
        lemma_first_dirty(rest);
        assert(forall|j: int| 1 <= j < table.len() ==> table[j] == rest[j - 1]);
    }
}

impl<V> PendingTableView<V> {
    /// Promoting `v`: a pending address moves to the end of the order (last
    /// to be overwritten); one without a slot takes the first slot in the
    /// order, which then has to be written. Returns whether `v` is pending.
    pub open spec fn promote(self, v: V) -> (PendingTableView<V>, bool) {
        if !self.values.contains(v) {
            (self, false)
        } else {
            match self.index_of(v) {
                Some(i) => (PendingTableView { order: promoted_order(self.order, i as usize), ..self }, true),
                None => {
                    let next = self.order[0];
                    (
                        PendingTableView {
                            table: self.table.update(next as int, SlotView { dirty: true, value: Some(v) }),
                            order: promoted_order(self.order, next),
                            ..self
                        },
                        true,
                    )
                },
            }
        }
    }

    /// Inserting `v`: it becomes pending and is promoted. Returns whether it
    /// was not pending before.
    pub open spec fn insert(self, v: V) -> (PendingTableView<V>, bool) {
        let inserted = !self.values.contains(v);
        let s = if inserted {
            PendingTableView { values: self.values.push(v), ..self }
        } else {
            self
        };
        (s.promote(v).0, inserted)
    }

    /// Removing `v`: it stops being pending; its slot is cleared, to be
    /// written, and becomes the first to be overwritten. Returns whether it
    /// was pending.
    pub open spec fn remove(self, v: V) -> (PendingTableView<V>, bool) {
        if !self.values.contains(v) {
            (self, false)
        } else {
            let values = self.values.remove(self.values.index_of(v));
            match self.index_of(v) {
                Some(i) => (
                    PendingTableView {
                        values,
                        table: self.table.update(i, SlotView { dirty: true, value: None }),
                        order: demoted_order(self.order, i as usize),
                        updating: self.updating,
                    },
                    true,
                ),
                None => (PendingTableView { values, ..self }, true),
            }
        }
    }

    /// Whether promoting `v` writes it to a slot: it is pending and holds
    /// none.
    pub open spec fn promote_writes(self, v: V) -> bool {
        self.values.contains(v) && self.index_of(v) is None
    }

    /// Whether removing `v` clears a slot: it is pending and holds one.
    pub open spec fn remove_clears(self, v: V) -> bool {
        self.values.contains(v) && self.index_of(v) is Some
    }

    /// After the radio's table was cleared: the slots that hold an address
    /// have to be written, the empty ones not.
    pub open spec fn assume_empty(self) -> PendingTableView<V> {
        PendingTableView {
            table: self.table.map_values(|e: SlotView<V>| SlotView { dirty: e.value is Some, value: e.value }),
            ..self
        }
    }

    /// The result of writing the slot under `key`: the write is over; a
    /// failed one leaves the slot to be written again.
    pub open spec fn report_update_result(self, key: UniqueKey, result: bool) -> PendingTableView<V> {
        match self.updating {
            Some((k, i)) => if k == key {
                PendingTableView {
                    updating: None,
                    table: if result {
                        self.table
                    } else {
                        self.table.update(i as int, SlotView { dirty: true, value: self.table[i as int].value })
                    },
                    ..self
                }
            } else {
                self
            },
            None => self,
        }
    }

    /// Whether a slot is to be written and no write is under way.
    pub open spec fn has_update(self) -> bool {
        self.updating is None && first_dirty(self.table) is Some
    }

    /// The next slot to write: when no write is under way, the first slot to
    /// be written is handed out under `key` and no longer counts as to be
    /// written.
    pub open spec fn poll_update(self, key: UniqueKey) -> (PendingTableView<V>, Option<(UniqueKey, usize, Option<V>)>) {
        if self.updating is None {
            match first_dirty(self.table) {
                Some(i) => (
                    PendingTableView {
                        table: self.table.update(i, SlotView { dirty: false, value: self.table[i].value }),
                        updating: Some((key, i as usize)),
                        ..self
                    },
                    Some((key, i as usize, self.table[i].value)),
                ),
                None => (self, None),
            }
        } else {
            (self, None)
        }
    }
}

proof fn lemma_index_of_unique<A>(s: Seq<A>, k: int)
    requires
        s.no_duplicates(),
        0 <= k < s.len(),
    ensures
        s.index_of(s[k]) == k,
{
    assert(s.contains(s[k]));
    let j = s.index_of(s[k]);
    assert(0 <= j < s.len() && s[j] == s[k]);
}

/// Moving a slot index to the end or the front keeps the order a
/// permutation.
proof fn lemma_order_moves(order: Seq<usize>, n: nat, i: usize)
    requires
        is_permutation(order, n),
        i < n,
    ensures
        is_permutation(promoted_order(order, i), n),
        promoted_order(order, i).last() == i,
        is_permutation(demoted_order(order, i), n),
        demoted_order(order, i)[0] == i,
{
    assert(order.contains(i));
    let p = order.index_of(i);
    assert(0 <= p < order.len() && order[p] == i);
    let r = order.remove(p);
    assert(r.len() == n - 1);
    assert(forall|k: int| 0 <= k < r.len() ==> r[k] == if k < p { order[k] } else { order[k + 1] });
    assert(!r.contains(i)) by {
        if r.contains(i) {
            let k = choose|k: int| 0 <= k < r.len() && r[k] == i;
            if k < p {
                assert(order[k] == order[p]);
            } else {
                assert(order[k + 1] == order[p]);
            }
        }
    }
    assert(r.no_duplicates()) by {
        assert forall|a: int, b: int| 0 <= a < b < r.len() implies r[a] != r[b] by {
            let a2 = if a < p { a } else { a + 1 };
            let b2 = if b < p { b } else { b + 1 };
            assert(r[a] == order[a2] && r[b] == order[b2]);
        }
    }
    assert forall|j: usize| j < n && j != i implies #[trigger] r.contains(j) by {
        assert(order.contains(j));
        let k = choose|k: int| 0 <= k < order.len() && order[k] == j;
        assert(k != p);
        if k < p {
            assert(r[k] == j);
        } else {
            assert(r[k - 1] == j);
        }
    }
    let pr = r.push(i);
    assert(pr == promoted_order(order, i));
    assert(pr.no_duplicates()) by {
        assert forall|a: int, b: int| 0 <= a < b < pr.len() implies pr[a] != pr[b] by {
            if b == r.len() {
                assert(r.contains(r[a]));
            }
        }
    }
    assert forall|j: usize| j < n implies #[trigger] pr.contains(j) by {
        if j == i {
            assert(pr[r.len() as int] == i);
        } else {
            assert(r.contains(j));
            let k = choose|k: int| 0 <= k < r.len() && r[k] == j;
            assert(pr[k] == j);
        }
    }
    let dr = seq![i] + r;
    assert(dr == demoted_order(order, i));
    assert(dr.no_duplicates()) by {
        assert forall|a: int, b: int| 0 <= a < b < dr.len() implies dr[a] != dr[b] by {
            if a == 0 {
                assert(dr[b] == r[b - 1]);
                assert(r.contains(r[b - 1]));
            } else {
                assert(dr[a] == r[a - 1] && dr[b] == r[b - 1]);
            }
        }
    }
    assert forall|j: usize| j < n implies #[trigger] dr.contains(j) by {
        if j == i {
            assert(dr[0] == i);
        } else {
            assert(r.contains(j));
            let k = choose|k: int| 0 <= k < r.len() && r[k] == j;
            assert(dr[k + 1] == j);
        }
    }
}

/// The invariant, with the order as a permutation.
pub open spec fn table_wf<V>(s: PendingTableView<V>) -> bool {
    &&& s.wf()
    &&& s.table.len() <= usize::MAX
    &&& is_permutation(s.order, s.table.len())
}

/// A slot holds a value at most once, so the slot found is the one.
proof fn lemma_holds_unique<V>(s: PendingTableView<V>, i: int, v: V)
    requires
        table_wf(s),
        holds(s.table, i, v),
    ensures
        s.index_of(v) == Some(i),
{
    assert(in_table(s.table, v));
    let j = choose|j: int| holds(s.table, j, v);
    assert(holds(s.table, j, v));
    if j < i {
        assert(s.table[j].value != s.table[i].value);
    } else if i < j {
        assert(s.table[i].value != s.table[j].value);
    }
}

/// Making `v` pending keeps the invariant.
proof fn lemma_pushed_value_wf<V>(s: PendingTableView<V>, v: V)
    requires
        table_wf(s),
        !s.values.contains(v),
    ensures
        table_wf(PendingTableView { values: s.values.push(v), ..s }),
{
    let s1 = PendingTableView { values: s.values.push(v), ..s };
    assert(s1.values.no_duplicates()) by {
        assert forall|a: int, b: int| 0 <= a < b < s1.values.len() implies s1.values[a] != s1.values[b] by {
            if b == s.values.len() {
                assert(s.values.contains(s.values[a]));
            }
        }
    }
    assert forall|i: int| #![trigger s1.table[i]] 0 <= i < s1.table.len() && s1.table[i].value is Some implies s1.values.contains(
        s1.table[i].value->Some_0,
    ) by {
        let k = choose|k: int| 0 <= k < s.values.len() && s.values[k] == s.table[i].value->Some_0;
        assert(s1.values[k] == s.values[k]);
    }
}

proof fn lemma_assume_empty_keeps_wf<V>(s: PendingTableView<V>)
    requires
        table_wf(s),
    ensures
        table_wf(s.assume_empty()),
{
    let e = s.assume_empty();
    assert(forall|i: int| 0 <= i < s.table.len() ==> #[trigger] e.table[i] == SlotView {
        dirty: s.table[i].value is Some,
        value: s.table[i].value,
    });
}

proof fn lemma_report_keeps_wf<V>(s: PendingTableView<V>, key: UniqueKey, result: bool)
    requires
        table_wf(s),
    ensures
        table_wf(s.report_update_result(key, result)),
{
    let r = s.report_update_result(key, result);
    assert(forall|i: int| 0 <= i < s.table.len() ==> #[trigger] r.table[i].value == s.table[i].value);
}

proof fn lemma_poll_keeps_wf<V>(s: PendingTableView<V>, key: UniqueKey)
    requires
        table_wf(s),
    ensures
        table_wf(s.poll_update(key).0),
{
    lemma_first_dirty(s.table);
    let p = s.poll_update(key).0;
    assert(forall|i: int| 0 <= i < s.table.len() ==> #[trigger] p.table[i].value == s.table[i].value);
}

/// The operations that leave the slot contents alone keep the invariant.
proof fn lemma_flag_ops_keep_wf<V>(s: PendingTableView<V>, key: UniqueKey, result: bool)
    requires
        table_wf(s),
    ensures
        table_wf(s.assume_empty()),
        table_wf(s.report_update_result(key, result)),
        table_wf(s.poll_update(key).0),
{
    lemma_assume_empty_keeps_wf(s);
    lemma_report_keeps_wf(s, key, result);
    lemma_poll_keeps_wf(s, key);
}

/// Every operation keeps the invariant.
pub proof fn lemma_ops_keep_wf<V>(s: PendingTableView<V>, v: V, key: UniqueKey, result: bool)
    requires
        table_wf(s),
        s.table.len() > 0,
    ensures
        table_wf(s.promote(v).0),
        table_wf(s.insert(v).0),
        table_wf(s.remove(v).0),
        table_wf(s.assume_empty()),
        table_wf(s.report_update_result(key, result)),
        table_wf(s.poll_update(key).0),
{
    lemma_promote_keeps_wf(s, v);
    if !s.values.contains(v) {
        lemma_pushed_value_wf(s, v);
        lemma_promote_keeps_wf(PendingTableView { values: s.values.push(v), ..s }, v);
    }
    lemma_remove_keeps_wf(s, v);
    lemma_flag_ops_keep_wf(s, key, result);
}

proof fn lemma_promote_keeps_wf<V>(s: PendingTableView<V>, v: V)
    requires
        table_wf(s),
        s.table.len() > 0,
    ensures
        table_wf(s.promote(v).0),
        s.values.contains(v) ==> in_table(s.promote(v).0.table, v),
        s.values.contains(v) ==> s.promote(v).0.order.last() == s.promote(v).0.index_of(v)->Some_0,
{
    if s.values.contains(v) {
        match s.index_of(v) {
            Some(i) => {
                let j = choose|j: int| holds(s.table, j, v);
                assert(holds(s.table, j, v));
                assert(j == i);
                assert forall|k: int| 0 <= k < s.order.len() implies #[trigger] s.order[k] < s.table.len() by {}
                lemma_order_moves(s.order, s.table.len(), i as usize);
                let t = s.promote(v).0;
                assert(0 <= i < s.table.len());
                assert(holds(t.table, i, v));
                lemma_holds_unique(t, i, v);
                assert(t.order.last() == i as usize);
            },
            None => {
                assert(s.order.contains(0usize));
                let next = s.order[0];
                assert(next < s.table.len());
                lemma_order_moves(s.order, s.table.len(), next);
                let t = s.promote(v).0;
                assert(!in_table(s.table, v));
                assert forall|a: int, b: int|
                    #![trigger t.table[a], t.table[b]]
                    0 <= a < b < t.table.len() && t.table[a].value is Some implies t.table[a].value != t.table[b].value by {
                    if a == next {
                        assert(!holds(s.table, b, v));
                    } else if b == next {
                        assert(!holds(s.table, a, v));
                    } else {
                        assert(s.table[a].value != s.table[b].value);
                    }
                }
                assert(holds(t.table, next as int, v));
                lemma_holds_unique(t, next as int, v);
                assert(t.order.last() == next);
            },
        }
    }
}

proof fn lemma_remove_keeps_wf<V>(s: PendingTableView<V>, v: V)
    requires
        table_wf(s),
    ensures
        table_wf(s.remove(v).0),
        !s.remove(v).0.values.contains(v),
        !in_table(s.remove(v).0.table, v),
{
    if s.values.contains(v) {
        let p = s.values.index_of(v);
        assert(0 <= p < s.values.len() && s.values[p] == v);
        let values = s.values.remove(p);
        assert(forall|k: int| 0 <= k < values.len() ==> values[k] == if k < p { s.values[k] } else { s.values[k + 1] });
        assert(values.no_duplicates()) by {
            assert forall|a: int, b: int| 0 <= a < b < values.len() implies values[a] != values[b] by {
                let a2 = if a < p { a } else { a + 1 };
                let b2 = if b < p { b } else { b + 1 };
                assert(values[a] == s.values[a2] && values[b] == s.values[b2]);
            }
        }
        assert(!values.contains(v)) by {
            if values.contains(v) {
                let k = choose|k: int| 0 <= k < values.len() && values[k] == v;
                let k2 = if k < p { k } else { k + 1 };
                assert(s.values[k2] == s.values[p]);
            }
        }
        let t = s.remove(v).0;
        assert(t.values == values);
        assert forall|x: V| s.values.contains(x) && x != v implies #[trigger] values.contains(x) by {
            let k = choose|k: int| 0 <= k < s.values.len() && s.values[k] == x;
            assert(k != p);
            if k < p {
                assert(values[k] == x);
            } else {
                assert(values[k - 1] == x);
            }
        }
        match s.index_of(v) {
            Some(i) => {
                let j = choose|j: int| holds(s.table, j, v);
                assert(holds(s.table, j, v));
                assert forall|k: int| 0 <= k < s.order.len() implies #[trigger] s.order[k] < s.table.len() by {}
                lemma_order_moves(s.order, s.table.len(), i as usize);
                assert forall|k: int| #![trigger t.table[k]] 0 <= k < t.table.len() && t.table[k].value is Some implies values.contains(
                    t.table[k].value->Some_0,
                ) by {
                    assert(k != i);
                    assert(s.table[k].value != s.table[i].value || k == i);
                    if k < i {
                        assert(s.table[k].value != s.table[i].value);
                    } else {
                        assert(s.table[i].value != s.table[k].value);
                    }
                }
                assert forall|a: int, b: int|
                    #![trigger t.table[a], t.table[b]]
                    0 <= a < b < t.table.len() && t.table[a].value is Some implies t.table[a].value != t.table[b].value by {
                    if a != i && b != i {
                        assert(s.table[a].value != s.table[b].value);
                    }
                }
                assert(!in_table(t.table, v)) by {
                    if in_table(t.table, v) {
                        let k = choose|k: int| holds(t.table, k, v);
                        assert(k != i);
                        if k < i {
                            assert(s.table[k].value != s.table[i].value);
                        } else {
                            assert(s.table[i].value != s.table[k].value);
                        }
                    }
                }
            },
            None => {
                assert forall|k: int| #![trigger t.table[k]] 0 <= k < t.table.len() && t.table[k].value is Some implies values.contains(
                    t.table[k].value->Some_0,
                ) by {
                    assert(!holds(s.table, k, v));
                }
            },
        }
    }
}

/// Inserting and removing keep the number of slots.
pub proof fn lemma_ops_keep_len<V>(s: PendingTableView<V>, v: V)
    requires
        table_wf(s),
        s.table.len() > 0,
    ensures
        s.insert(v).0.table.len() == s.table.len(),
        s.remove(v).0.table.len() == s.table.len(),
{
    assert(s.order.len() > 0);
    assert(s.order[0] < s.table.len());
}

/// After inserting an address it holds a slot, the last to be overwritten;
/// after removing it, it is neither pending nor in a slot.
pub proof fn lemma_insert_remove_effect<V>(s: PendingTableView<V>, v: V)
    requires
        table_wf(s),
        s.table.len() > 0,
    ensures
        s.insert(v).0.values.contains(v),
        in_table(s.insert(v).0.table, v),
        s.insert(v).0.order.last() == s.insert(v).0.index_of(v)->Some_0,
        !s.remove(v).0.values.contains(v),
        !in_table(s.remove(v).0.table, v),
{
    lemma_remove_keeps_wf(s, v);
    if !s.values.contains(v) {
        let s1 = PendingTableView { values: s.values.push(v), ..s };
        assert(s1.values[s.values.len() as int] == v);
        lemma_pushed_value_wf(s, v);
        lemma_promote_keeps_wf(s1, v);
    } else {
        lemma_promote_keeps_wf(s, v);
    }
}

/// A table of `size` empty slots, all to be written, overwritten in index
/// order, with no address pending and no write under way.
pub open spec fn empty_table<V>(size: nat) -> PendingTableView<V> {
    PendingTableView {
        values: Seq::empty(),
        table: Seq::new(size, |i: int| SlotView { dirty: true, value: None }),
        order: Seq::new(size, |i: int| i as usize),
        updating: None,
    }
}

/// The host's copy of a pending-data table of `size` slots.
pub struct PendingTable<T> {
    values: Vec<T>,
    table: Vec<PendingTableEntry<T>>,
    order: Vec<usize>,
    updating: Option<(UniqueKey, usize)>,
    waker: WakerStore,
}

impl<T: View> View for PendingTable<T> {
    type V = PendingTableView<T::V>;

    closed spec fn view(&self) -> PendingTableView<T::V> {
        PendingTableView {
            values: self.values@.map_values(|t: T| t@),
            table: self.table@.map_values(
                |e: PendingTableEntry<T>|
                    SlotView {
                        dirty: e.dirty,
                        value: match e.value {
                            Some(t) => Some(t@),
                            None => None,
                        },
                    },
            ),
            order: self.order@,
            updating: self.updating,
        }
    }
}

/// The view of an optional item.
pub open spec fn option_view<T: View>(o: Option<T>) -> Option<T::V> {
    match o {
        Some(t) => Some(t@),
        None => None,
    }
}

/// A copy of an optional item.
fn duplicate_option<T: SetItem>(v: &Option<T>) -> (r: Option<T>)
    ensures
        match *v {
            Some(t) => r matches Some(u) && u@ == t@,
            None => r is None,
        },
{
    match v {
        Some(t) => Some(t.duplicate()),
        None => None,
    }
}

impl<T: SetItem> PendingTable<T> {
    /// The invariant of the table.
    pub closed spec fn wf(&self) -> bool {
        table_wf(self@)
    }

    /// Whether a task waits to be woken when a slot is to be written.
    pub closed spec fn waiting(&self) -> bool {
        self.waker.holds_waker()
    }

    /// Wakes the waiting task, if any.
    fn wake(&mut self)
        ensures
            final(self)@ == old(self)@,
            !final(self).waiting(),
    {
        self.waker.wake();
    }

    /// A table of `size` empty slots, all to be written, overwritten in
    /// index order; no address is pending.
    pub fn new(size: usize) -> (r: Self)
        ensures
            r.wf(),
            r@ == empty_table::<T::V>(size as nat),
            !r.waiting(),
    {
        let mut table: Vec<PendingTableEntry<T>> = Vec::new();
        let mut order: Vec<usize> = Vec::new();
        let mut i: usize = 0;
        while i < size
            invariant
                i <= size,
                table@.len() == i,
                order@ == Seq::new(i as nat, |k: int| k as usize),
                forall|k: int| 0 <= k < i ==> (#[trigger] table@[k]).dirty && table@[k].value is None,
            decreases size - i,
        {
            table.push(PendingTableEntry { dirty: true, value: None });
            order.push(i);
            i = i + 1;
            assert(order@ =~= Seq::new(i as nat, |k: int| k as usize));
        }
        let r = PendingTable { values: Vec::new(), table, order, updating: None, waker: WakerStore::new() };
        assert(r@.values =~= Seq::<T::V>::empty());
        assert(r@.table =~= Seq::new(size as nat, |i: int| SlotView::<T::V> { dirty: true, value: None }));
        proof {
            let o = r@.order;
            assert forall|a: int, b: int| 0 <= a < b < o.len() implies o[a] != o[b] by {}
            assert forall|x: usize| x < size implies #[trigger] o.contains(x) by {
                assert(o[x as int] == x);
            }
        }
        r
    }

    /// After the radio's table was cleared, the slots that hold an address
    /// are to be written again.
    pub fn assume_empty(&mut self)
        requires
            old(self).wf(),
        ensures
            final(self).wf(),
            final(self)@.table.len() == old(self)@.table.len(),
            final(self)@ == old(self)@.assume_empty(),
            !final(self).waiting(),
    {
        proof {
            lemma_flag_ops_keep_wf(self@, arbitrary(), false);
        }
        let mut i: usize = 0;
        let ghost start = self@;
        while i < self.table.len()
            invariant
                i <= self.table@.len(),
                self.table@.len() == start.table.len(),
                self@.values == start.values,
                self@.order == start.order,
                self@.updating == start.updating,
                forall|k: int| 0 <= k < i ==> #[trigger] self@.table[k] == start.assume_empty().table[k],
                forall|k: int| i <= k < self.table@.len() ==> #[trigger] self@.table[k] == start.table[k],
            decreases self.table@.len() - i,
        {
            let ghost prev = self@;
            let value = duplicate_option(&self.table[i].value);
            let dirty = value.is_some();
            self.table[i] = PendingTableEntry { dirty, value };
            assert(self@.table =~= prev.table.update(
                i as int,
                SlotView { dirty: prev.table[i as int].value is Some, value: prev.table[i as int].value },
            ));
            assert(start.assume_empty().table[i as int] == SlotView {
                dirty: start.table[i as int].value is Some,
                value: start.table[i as int].value,
            });
            i = i + 1;
        }
        assert(self@.table =~= start.assume_empty().table);
        self.wake();
    }

    /// The slot that holds `value`, if any.
    fn get_index(&self, value: &T) -> (r: Option<usize>)
        requires
            self.wf(),
        ensures
            match r {
                Some(i) => self@.index_of(value@) == Some(i as int),
                None => self@.index_of(value@) is None,
            },
    {
        let mut index: usize = 0;
        while index < self.table.len()
            invariant
                self.wf(),
                index <= self.table@.len(),
                forall|k: int| 0 <= k < index ==> !holds(self@.table, k, value@),
            decreases self.table@.len() - index,
        {
            let found = match &self.table[index].value {
                Some(current) => current.same(value),
                None => false,
            };
            if found {
                proof {
                    assert(holds(self@.table, index as int, value@));
                    lemma_holds_unique(self@, index as int, value@);
                }
                return Some(index);
            }
            assert(!holds(self@.table, index as int, value@));
            index = index + 1;
        }
        assert(!in_table(self@.table, value@));
        None
    }

    /// The position of slot index `index` in the order.
    fn position_in_order(&self, index: usize) -> (r: usize)
        requires
            self.wf(),
            index < self@.table.len(),
        ensures
            r < self@.order.len(),
            self@.order[r as int] == index,
            self@.order.index_of(index) == r,
    {
        let mut p: usize = 0;
        while p < self.order.len()
            invariant
                self.wf(),
                index < self@.table.len(),
                p <= self@.order.len(),
                forall|k: int| 0 <= k < p ==> self@.order[k] != index,
            decreases self@.order.len() - p,
        {
            if self.order[p] == index {
                proof {
                    lemma_index_of_unique(self@.order, p as int);
                }
                return p;
            }
            p = p + 1;
        }
        proof {
            assert(self@.order.contains(index));
        }
        0
    }

    /// Moves slot `index` to the end of the order.
    fn promote_index(&mut self, index: usize)
        requires
            old(self).wf(),
            index < old(self)@.table.len(),
        ensures
            final(self)@ == (PendingTableView { order: promoted_order(old(self)@.order, index), ..old(self)@ }),
            final(self).waiting() == old(self).waiting(),
    {
        let p = self.position_in_order(index);
        self.order.remove(p);
        self.order.push(index);
        assert(self@.order =~= promoted_order(old(self)@.order, index));
    }

    /// Moves slot `index` to the front of the order.
    fn demote_index(&mut self, index: usize)
        requires
            old(self).wf(),
            index < old(self)@.table.len(),
        ensures
            final(self)@ == (PendingTableView { order: demoted_order(old(self)@.order, index), ..old(self)@ }),
            final(self).waiting() == old(self).waiting(),
    {
        let p = self.position_in_order(index);
        self.order.remove(p);
        self.order.insert(0, index);
        assert(self@.order =~= demoted_order(old(self)@.order, index));
    }

    /// The position of `value` among the pending addresses.
    fn find_value(&self, value: &T) -> (r: Option<usize>)
        requires
            self.wf(),
        ensures
            match r {
                Some(p) => self@.values.contains(value@) && self@.values.index_of(value@) == p as int,
                None => !self@.values.contains(value@),
            },
    {
        let mut p: usize = 0;
        while p < self.values.len()
            invariant
                self.wf(),
                p <= self@.values.len(),
                forall|k: int| 0 <= k < p ==> self@.values[k] != value@,
            decreases self@.values.len() - p,
        {
            assert(self@.values[p as int] == self.values@[p as int]@);
            if self.values[p].same(value) {
                proof {
                    assert(self@.values.contains(value@));
                    lemma_index_of_unique(self@.values, p as int);
                }
                return Some(p);
            }
            p = p + 1;
        }
        None
    }

    /// Whether `value` is pending.
    pub fn contains(&self, value: &T) -> (r: bool)
        requires
            self.wf(),
        ensures
            r == self@.values.contains(value@),
    {
        self.find_value(value).is_some()
    }

    /// Promotes `value`, if pending, to hold a slot that is the last to be
    /// overwritten. Returns whether it is pending.
    pub fn promote(&mut self, value: &T) -> (r: bool)
        requires
            old(self).wf(),
            old(self)@.values.contains(value@) ==> old(self)@.table.len() > 0,
        ensures
            final(self).wf(),
            final(self)@.table.len() == old(self)@.table.len(),
            (final(self)@, r) == old(self)@.promote(value@),
            final(self).waiting() == (old(self).waiting() && !(old(self)@.promote_writes(value@)
                && old(self)@.updating is None)),
    {
        if self.find_value(value).is_none() {
            return false;
        }
        proof {
            lemma_ops_keep_wf(self@, value@, arbitrary(), false);
        }
        let index = match self.get_index(value) {
            Some(current_index) => current_index,
            None => {
                proof {
                    assert(self@.order.contains(0usize));
                }
                let next_index = self.order[0];
                self.table[next_index] = PendingTableEntry { dirty: true, value: Some(value.duplicate()) };
                assert(self@.table =~= old(self)@.table.update(
                    next_index as int,
                    SlotView { dirty: true, value: Some(value@) },
                ));
                if self.updating.is_none() {
                    self.wake();
                }
                next_index
            },
        };
        self.promote_index(index);
        true
    }

    /// Makes `value` pending or not.
    pub fn set(&mut self, value: &T, inserted: bool)
        requires
            old(self).wf(),
            inserted ==> old(self)@.table.len() > 0,
        ensures
            final(self).wf(),
            final(self)@.table.len() == old(self)@.table.len(),
            final(self)@ == if inserted {
                old(self)@.insert(value@).0
            } else {
                old(self)@.remove(value@).0
            },
            final(self).waiting() == (old(self).waiting() && !(old(self)@.updating is None && if inserted {
                old(self)@.index_of(value@) is None
            } else {
                old(self)@.remove_clears(value@)
            })),
    {
        if inserted {
            self.insert(value.duplicate());
        } else {
            self.remove(value);
        }
    }

    /// Makes `value` pending and promotes it. Returns whether it was not
    /// pending before.
    pub fn insert(&mut self, value: T) -> (r: bool)
        requires
            old(self).wf(),
            old(self)@.table.len() > 0,
        ensures
            final(self).wf(),
            final(self)@.table.len() == old(self)@.table.len(),
            (final(self)@, r) == old(self)@.insert(value@),
            final(self).waiting() == (old(self).waiting() && !(old(self)@.index_of(value@) is None
                && old(self)@.updating is None)),
    {
        proof {
            lemma_ops_keep_wf(self@, value@, arbitrary(), false);
        }
        let inserted = self.find_value(&value).is_none();
        if inserted {
            proof {
                lemma_pushed_value_wf(self@, value@);
            }
            self.values.push(value.duplicate());
            assert(self@.values =~= old(self)@.values.push(value@));
            assert(self@.values[old(self)@.values.len() as int] == value@);
        }
        assert(self@.values.contains(value@));
        assert(self@.table == old(self)@.table);
        self.promote(&value);
        inserted
    }

    /// Stops `value` being pending; its slot is cleared. Returns whether it
    /// was pending.
    pub fn remove(&mut self, value: &T) -> (r: bool)
        requires
            old(self).wf(),
        ensures
            final(self).wf(),
            final(self)@.table.len() == old(self)@.table.len(),
            (final(self)@, r) == old(self)@.remove(value@),
            final(self).waiting() == (old(self).waiting() && !(old(self)@.remove_clears(value@)
                && old(self)@.updating is None)),
    {
        proof {
            lemma_remove_keeps_wf(self@, value@);
        }
        match self.find_value(value) {
            None => false,
            Some(p) => {
                let index = self.get_index(value);
                self.values.remove(p);
                assert(self@.values =~= old(self)@.values.remove(p as int));
                match index {
                    Some(i) => {
                        self.table[i] = PendingTableEntry { dirty: true, value: None };
                        let p2 = self.position_in_order_unchecked(i);
                        self.order.remove(p2);
                        self.order.insert(0, i);
                        assert(self@.table =~= old(self)@.remove(value@).0.table);
                        assert(self@.order =~= old(self)@.remove(value@).0.order);
                        if self.updating.is_none() {
                            self.wake();
                        }
                    },
                    None => {},
                }
                true
            },
        }
    }

    /// The position of slot index `index` in the order, where the order is a
    /// permutation though the rest of the table is being changed.
    fn position_in_order_unchecked(&self, index: usize) -> (r: usize)
        requires
            is_permutation(self@.order, self@.table.len()),
            index < self@.table.len(),
        ensures
            r < self@.order.len(),
            self@.order[r as int] == index,
            self@.order.index_of(index) == r,
    {
        let mut p: usize = 0;
        while p < self.order.len()
            invariant
                is_permutation(self@.order, self@.table.len()),
                index < self@.table.len(),
                p <= self@.order.len(),
                forall|k: int| 0 <= k < p ==> self@.order[k] != index,
            decreases self@.order.len() - p,
        {
            if self.order[p] == index {
                proof {
                    lemma_index_of_unique(self@.order, p as int);
                }
                return p;
            }
            p = p + 1;
        }
        proof {
            assert(self@.order.contains(index));
        }
        0
    }

    /// Reports the result of writing the slot handed out under `token`.
    pub fn report_update_result(&mut self, token: UniqueKey, result: bool)
        requires
            old(self).wf(),
        ensures
            final(self).wf(),
            final(self)@.table.len() == old(self)@.table.len(),
            final(self)@ == old(self)@.report_update_result(token, result),
            final(self).waiting() == (old(self).waiting() && !(old(self)@.updating matches Some((k, _))
                && k == token)),
    {
        proof {
            lemma_flag_ops_keep_wf(self@, token, result);
        }
        match self.updating {
            Some((current_token, index)) => {
                if token.same(&current_token) {
                    self.updating = None;
                    if !result {
                        let value = duplicate_option(&self.table[index].value);
                        self.table[index] = PendingTableEntry { dirty: true, value };
                        assert(self@.table =~= old(self)@.report_update_result(token, result).table);
                    }
                    self.wake();
                }
            },
            None => {},
        }
    }

    /// The next slot to write to the radio, unless a write is under way or
    /// no slot needs one; then the task polling waits to be woken.
    pub fn poll_update(&mut self, cx: &mut Context<'_>) -> (r: Option<PendingTableUpdate<T>>)
        requires
            old(self).wf(),
        ensures
            final(self).wf(),
            final(self)@.table.len() == old(self)@.table.len(),
            r is None ==> final(self).waiting(),
            r is Some ==> final(self).waiting() == old(self).waiting(),
            match r {
                Some(u) => {
                    &&& old(self)@.has_update()
                    &&& final(self)@ == old(self)@.poll_update(u.key).0
                    &&& old(self)@.poll_update(u.key).1 == Some((u.key, u.index, option_view(u.value)))
                },
                None => !old(self)@.has_update() && final(self)@ == old(self)@,
            },
    {
        proof {
            lemma_first_dirty(self@.table);
            lemma_flag_ops_keep_wf(self@, arbitrary(), false);
        }
        if self.updating.is_none() {
            let mut index: usize = 0;
            while index < self.table.len()
                invariant
                    self@ == old(self)@,
                    self.wf(),
                    self.waiting() == old(self).waiting(),
                    self@.updating is None,
                    index <= self.table@.len(),
                    forall|k: int| 0 <= k < index ==> !(#[trigger] self@.table[k]).dirty,
                decreases self.table@.len() - index,
            {
                assert(self@.table[index as int].dirty == self.table@[index as int].dirty);
                if self.table[index].dirty {
                    proof {
                        lemma_first_dirty(self@.table);
                        match first_dirty(self@.table) {
                            Some(j) => {
                                if j < index {
                                    assert(!self@.table[j].dirty);
                                } else if j > index {
                                    assert(!self@.table[index as int].dirty);
                                }
                            },
                            None => {
                                assert(!self@.table[index as int].dirty);
                            },
                        }
                        assert(first_dirty(self@.table) == Some(index as int));
                    }
                    let ghost prev = self@;
                    let value = duplicate_option(&self.table[index].value);
                    let stored = duplicate_option(&self.table[index].value);
                    self.table[index] = PendingTableEntry { dirty: false, value: stored };
                    let key = UniqueKey::new();
                    self.updating = Some((key, index));
                    proof {
                        lemma_flag_ops_keep_wf(prev, key, false);
                        assert(self@.table =~= prev.table.update(
                            index as int,
                            SlotView { dirty: false, value: prev.table[index as int].value },
                        ));
                        assert(self@ == prev.poll_update(key).0);
                    }
                    return Some(PendingTableUpdate { key, index, value });
                }
                index = index + 1;
            }
        }
        assert(old(self)@.poll_update(arbitrary()).1 is None);
        self.waker.register_context(cx);
        None
    }
}

} // verus!
