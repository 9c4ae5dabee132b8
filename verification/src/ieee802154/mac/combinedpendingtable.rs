//! The radio's two pending-data tables, one of short and one of extended
//! addresses, and the clearing of both that has to come first.
use crate::ieee802154::mac::frame::{Address, FullAddress};
use crate::ieee802154::mac::pendingtable::{empty_table, PendingTable, PendingTableView};
use crate::ieee802154::{ExtendedAddress, ShortAddress, PANID};
use crate::unique_key::UniqueKey;
use crate::waker_store::WakerStore;
use std::task::Context;
use vstd::prelude::*;

verus! {

/// What the radio is to be asked next: to clear both tables, or to write a
/// slot of one of them; each under the key its result is reported with.
#[derive(Debug, PartialEq, Eq)]
pub enum CombinedPendingTableAction {
    Init(UniqueKey),
    UpdateShort(UniqueKey, usize, Option<(PANID, ShortAddress)>),
    UpdateExtended(UniqueKey, usize, Option<ExtendedAddress>),
}

/// The number of slots in each of the radio's tables.
pub const TABLE_SIZE: usize = 8;

/// Both tables, viewed: the clearing under way, whether the tables were
/// cleared, whether frames without an address have data pending, and the
/// two tables.
pub struct CombinedPendingTableView {
    pub initializing: Option<UniqueKey>,
    pub is_initialized: bool,
    pub none: bool,
    pub short: PendingTableView<(PANID, ShortAddress)>,
    pub extended: PendingTableView<ExtendedAddress>,
}

/// The host's copies of the radio's two pending-data tables.
pub struct CombinedPendingTable {
    waker: WakerStore,
    initializing: Option<UniqueKey>,
    is_initialized: bool,
    none: bool,
    short: PendingTable<(PANID, ShortAddress)>,
    extended: PendingTable<ExtendedAddress>,
}

impl View for CombinedPendingTable {
    type V = CombinedPendingTableView;

    closed spec fn view(&self) -> CombinedPendingTableView {
        CombinedPendingTableView {
            initializing: self.initializing,
            is_initialized: self.is_initialized,
            none: self.none,
            short: self.short@,
            extended: self.extended@,
        }
    }
}

impl CombinedPendingTableView {
    /// The result of the clearing under `key`: when it is the one under way,
    /// it is over, the tables count as cleared when it succeeded, and then
    /// every slot that holds an address has to be written again.
    pub open spec fn report_init_result(self, key: UniqueKey, result: bool) -> CombinedPendingTableView {
        if self.initializing == Some(key) {
            CombinedPendingTableView {
                initializing: None,
                is_initialized: result,
                short: if result { self.short.assume_empty() } else { self.short },
                extended: if result { self.extended.assume_empty() } else { self.extended },
                ..self
            }
        } else {
            self
        }
    }

    /// Marks `address` as having data pending or not: no address is a flag
    /// of its own, a short or extended one goes to its table.
    pub open spec fn set(self, address: Option<FullAddress>, inserted: bool) -> CombinedPendingTableView {
        match address {
            None => CombinedPendingTableView { none: inserted, ..self },
            Some(full) => match full.address {
                Address::Short(a) => CombinedPendingTableView {
                    short: if inserted {
                        self.short.insert((full.pan_id, a)).0
                    } else {
                        self.short.remove((full.pan_id, a)).0
                    },
                    ..self
                },
                Address::Extended(a) => CombinedPendingTableView {
                    extended: if inserted {
                        self.extended.insert(a).0
                    } else {
                        self.extended.remove(a).0
                    },
                    ..self
                },
            },
        }
    }

    /// The next request for the radio, made under `key` when one is made:
    /// none while a clearing is under way; a clearing until one succeeded;
    /// then the next slot of the short table to write, then of the extended
    /// one.
    pub open spec fn poll_action(self, key: UniqueKey) -> (CombinedPendingTableView, Option<CombinedPendingTableAction>) {
        if self.initializing is Some {
            (self, None)
        } else if !self.is_initialized {
            (CombinedPendingTableView { initializing: Some(key), ..self }, Some(CombinedPendingTableAction::Init(key)))
        } else if self.short.has_update() {
            let (t, u) = self.short.poll_update(key);
            let (k, i, v) = u->Some_0;
            (CombinedPendingTableView { short: t, ..self }, Some(CombinedPendingTableAction::UpdateShort(k, i, v)))
        } else if self.extended.has_update() {
            let (t, u) = self.extended.poll_update(key);
            let (k, i, v) = u->Some_0;
            (CombinedPendingTableView { extended: t, ..self }, Some(CombinedPendingTableAction::UpdateExtended(k, i, v)))
        } else {
            (self, None)
        }
    }

    /// The result of writing a slot under `key`, handed to both tables.
    pub open spec fn report_update_result(self, key: UniqueKey, success: bool) -> CombinedPendingTableView {
        CombinedPendingTableView {
            short: self.short.report_update_result(key, success),
            extended: self.extended.report_update_result(key, success),
            ..self
        }
    }
}

impl CombinedPendingTable {
    /// The invariant: both tables are well formed and have their size.
    pub closed spec fn wf(&self) -> bool {
        &&& self.short.wf()
        &&& self.extended.wf()
        &&& self.short@.table.len() == TABLE_SIZE
        &&& self.extended@.table.len() == TABLE_SIZE
    }

    /// Whether a task waits to be woken when the clearing under way ends.
    pub closed spec fn waiting(&self) -> bool {
        self.waker.holds_waker()
    }

    /// Two empty tables of eight slots, not cleared yet.
    pub fn new() -> (r: Self)
        ensures
            r.wf(),
            !r.waiting(),
            r@ == (CombinedPendingTableView {
                initializing: None,
                is_initialized: false,
                none: false,
                short: empty_table(TABLE_SIZE as nat),
                extended: empty_table(TABLE_SIZE as nat),
            }),
    {
        Self {
            waker: WakerStore::new(),
            initializing: None,
            is_initialized: false,
            none: false,
            short: PendingTable::<(PANID, ShortAddress)>::new(TABLE_SIZE),
            extended: PendingTable::<ExtendedAddress>::new(TABLE_SIZE),
        }
    }

    /// Reports the result of the clearing under `key`.
    pub fn report_init_result(&mut self, key: UniqueKey, result: bool)
        requires
            old(self).wf(),
        ensures
            final(self).wf(),
            final(self)@ == old(self)@.report_init_result(key, result),
            final(self).waiting() == (old(self).waiting() && old(self)@.initializing != Some(key)),
    {
        let matches = match self.initializing {
            Some(current) => current.same(&key),
            None => false,
        };
        if matches {
            self.initializing = None;
            self.is_initialized = result;
            if result {
                self.short.assume_empty();
                self.extended.assume_empty();
            }
            self.waker.wake();
        }
    }

    /// Marks `address` as having data pending or not.
    pub fn set(&mut self, address: &Option<FullAddress>, inserted: bool)
        requires
            old(self).wf(),
        ensures
            final(self).wf(),
            final(self)@ == old(self)@.set(*address, inserted),
            final(self).waiting() == old(self).waiting(),
    {
        match address {
            None => self.none = inserted,
            Some(full) => match full.address {
                Address::Short(a) => self.short.set(&(full.pan_id, a), inserted),
                Address::Extended(a) => self.extended.set(&a, inserted),
            },
        }
    }

    /// The next request for the radio: none while a clearing is under way,
    /// a clearing under a fresh key until one succeeded, then the next slot
    /// of the short table to write, then of the extended one. Without one,
    /// the task polling waits to be woken.
    pub fn poll_action(&mut self, cx: &mut Context<'_>) -> (r: Option<CombinedPendingTableAction>)
        requires
            old(self).wf(),
        ensures
            final(self).wf(),
            exists|key: UniqueKey| (final(self)@, r) == #[trigger] old(self)@.poll_action(key),
            old(self)@.initializing is Some ==> final(self).waiting(),
            old(self)@.initializing is None ==> final(self).waiting() == old(self).waiting(),
    {
        let ghost start = self@;
        if self.initializing.is_some() {
            self.waker.register_context(cx);
            assert((self@, None::<CombinedPendingTableAction>) == start.poll_action(arbitrary()));
            None
        } else if !self.is_initialized {
            let key = UniqueKey::new();
            self.initializing = Some(key);
            let r = Some(CombinedPendingTableAction::Init(key));
            assert((self@, r) == start.poll_action(key));
            r
        } else {
            match self.short.poll_update(cx) {
                Some(update) => {
                    let r = Some(CombinedPendingTableAction::UpdateShort(update.key, update.index, update.value));
                    assert((self@, r) == start.poll_action(update.key));
                    r
                },
                None => match self.extended.poll_update(cx) {
                    Some(update) => {
                        let r = Some(
                            CombinedPendingTableAction::UpdateExtended(update.key, update.index, update.value),
                        );
                        assert((self@, r) == start.poll_action(update.key));
                        r
                    },
                    None => {
                        assert((self@, None::<CombinedPendingTableAction>) == start.poll_action(arbitrary()));
                        None
                    },
                },
            }
        }
    }

    /// Reports the result of writing a slot under `key`.
    pub fn report_update_result(&mut self, key: UniqueKey, success: bool)
        requires
            old(self).wf(),
        ensures
            final(self).wf(),
            final(self)@ == old(self)@.report_update_result(key, success),
            final(self).waiting() == old(self).waiting(),
    {
        self.short.report_update_result(key, success);
        self.extended.report_update_result(key, success);
    }
}

} // verus!
