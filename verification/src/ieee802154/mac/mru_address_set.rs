//! Two recency sets, one for short and one for extended addresses, as the
//! radio keeps one pending-data table for each kind.
use crate::ieee802154::mac::frame::AddressSpecification;
use crate::ieee802154::{ExtendedAddress, ShortAddress, PANID};
use crate::mru_set::{MRUSet, MRUSetAction, MRUSetView};
use vstd::prelude::*;

verus! {

/// A change of the radio's short or extended address table.
#[derive(Debug, Clone, Copy, PartialEq, Eq)]
pub enum MRUAddressSetAction {
    Unchanged,
    SetShortSlot(usize, Option<(PANID, ShortAddress)>),
    SetExtendedSlot(usize, Option<ExtendedAddress>),
}

/// The address table action for a change of the short address set.
pub open spec fn short_action(action: MRUSetAction<(PANID, ShortAddress)>) -> MRUAddressSetAction {
    match action {
        MRUSetAction::Unchanged => MRUAddressSetAction::Unchanged,
        MRUSetAction::SetSlot(slot, address) => MRUAddressSetAction::SetShortSlot(slot, Some(address)),
        MRUSetAction::ClearSlot(slot) => MRUAddressSetAction::SetShortSlot(slot, None),
    }
}

/// The address table action for a change of the extended address set.
pub open spec fn extended_action(action: MRUSetAction<ExtendedAddress>) -> MRUAddressSetAction {
    match action {
        MRUSetAction::Unchanged => MRUAddressSetAction::Unchanged,
        MRUSetAction::SetSlot(slot, address) => MRUAddressSetAction::SetExtendedSlot(slot, Some(address)),
        MRUSetAction::ClearSlot(slot) => MRUAddressSetAction::SetExtendedSlot(slot, None),
    }
}

impl From<MRUSetAction<(PANID, ShortAddress)>> for MRUAddressSetAction {
    fn from(action: MRUSetAction<(PANID, ShortAddress)>) -> (r: Self) {
        match action {
            MRUSetAction::Unchanged => MRUAddressSetAction::Unchanged,
            MRUSetAction::SetSlot(slot, address) => MRUAddressSetAction::SetShortSlot(slot, Some(address)),
            MRUSetAction::ClearSlot(slot) => MRUAddressSetAction::SetShortSlot(slot, None),
        }
    }
}

impl vstd::std_specs::convert::FromSpecImpl<MRUSetAction<(PANID, ShortAddress)>> for MRUAddressSetAction {
    open spec fn obeys_from_spec() -> bool {
        true
    }

    open spec fn from_spec(action: MRUSetAction<(PANID, ShortAddress)>) -> MRUAddressSetAction {
        short_action(action)
    }
}

impl From<MRUSetAction<ExtendedAddress>> for MRUAddressSetAction {
    fn from(action: MRUSetAction<ExtendedAddress>) -> (r: Self) {
        match action {
            MRUSetAction::Unchanged => MRUAddressSetAction::Unchanged,
            MRUSetAction::SetSlot(slot, address) => MRUAddressSetAction::SetExtendedSlot(slot, Some(address)),
            MRUSetAction::ClearSlot(slot) => MRUAddressSetAction::SetExtendedSlot(slot, None),
        }
    }
}

impl vstd::std_specs::convert::FromSpecImpl<MRUSetAction<ExtendedAddress>> for MRUAddressSetAction {
    open spec fn obeys_from_spec() -> bool {
        true
    }

    open spec fn from_spec(action: MRUSetAction<ExtendedAddress>) -> MRUAddressSetAction {
        extended_action(action)
    }
}

/// The two sets.
pub struct MRUAddressSetView {
    pub short: MRUSetView<(PANID, ShortAddress)>,
    pub extended: MRUSetView<ExtendedAddress>,
}

/// Short addresses are kept with their PAN identifier, extended addresses
/// without.
pub struct MRUAddressSet {
    short: MRUSet<(PANID, ShortAddress)>,
    extended: MRUSet<ExtendedAddress>,
}

impl View for MRUAddressSet {
    type V = MRUAddressSetView;

    closed spec fn view(&self) -> MRUAddressSetView {
        MRUAddressSetView { short: self.short@, extended: self.extended@ }
    }
}

impl MRUAddressSet {
    /// Both sets are well formed.
    pub closed spec fn wf(&self) -> bool {
        self.short.wf() && self.extended.wf()
    }

    /// Empty sets with the given numbers of slots.
    pub fn new(num_short_slots: usize, num_extended_slots: usize) -> (r: MRUAddressSet)
        requires
            num_short_slots > 0,
            num_extended_slots > 0,
        ensures
            r.wf(),
            r@.short.entries.len() == 0,
            r@.short.slots.len() == 0,
            r@.short.first_slotted == 0,
            r@.short.capacity == num_short_slots,
            r@.short.free == Seq::new(num_short_slots as nat, |i: int| i as usize),
            r@.extended.entries.len() == 0,
            r@.extended.slots.len() == 0,
            r@.extended.first_slotted == 0,
            r@.extended.capacity == num_extended_slots,
            r@.extended.free == Seq::new(num_extended_slots as nat, |i: int| i as usize),
    {
        MRUAddressSet { short: MRUSet::new(num_short_slots), extended: MRUSet::new(num_extended_slots) }
    }

    /// Whether `address` is in its set; an absent address never is.
    pub fn contains(&self, address: &AddressSpecification) -> (r: bool)
        requires
            self.wf(),
        ensures
            r == match *address {
                AddressSpecification::NotPresent => false,
                AddressSpecification::Short(panid, a) => self@.short.entries.contains((panid, a)),
                AddressSpecification::Extended(_, a) => self@.extended.entries.contains(a),
            },
    {
        match address {
            AddressSpecification::NotPresent => false,
            AddressSpecification::Short(panid, a) => self.short.contains(&(*panid, *a)),
            AddressSpecification::Extended(_, a) => self.extended.contains(a),
        }
    }

    /// Inserts `address` into its set, as the newest entry.
    pub fn insert(&mut self, address: &AddressSpecification) -> (r: MRUAddressSetAction)
        requires
            old(self).wf(),
        ensures
            final(self).wf(),
            match *address {
                AddressSpecification::NotPresent => r == MRUAddressSetAction::Unchanged && final(self)@ == old(self)@,
                AddressSpecification::Short(panid, a) => {
                    &&& final(self)@.short == old(self)@.short.insert((panid, a)).0
                    &&& r == short_action(old(self)@.short.insert((panid, a)).1)
                    &&& final(self)@.extended == old(self)@.extended
                },
                AddressSpecification::Extended(_, a) => {
                    &&& final(self)@.extended == old(self)@.extended.insert(a).0
                    &&& r == extended_action(old(self)@.extended.insert(a).1)
                    &&& final(self)@.short == old(self)@.short
                },
            },
    {
        match address {
            AddressSpecification::NotPresent => MRUAddressSetAction::Unchanged,
            AddressSpecification::Short(panid, a) => MRUAddressSetAction::from(self.short.insert(&(*panid, *a))),
            AddressSpecification::Extended(_, a) => MRUAddressSetAction::from(self.extended.insert(a)),
        }
    }

    /// Removes `address` from its set.
    pub fn remove(&mut self, address: &AddressSpecification) -> (r: MRUAddressSetAction)
        requires
            old(self).wf(),
        ensures
            final(self).wf(),
            match *address {
                AddressSpecification::NotPresent => r == MRUAddressSetAction::Unchanged && final(self)@ == old(self)@,
                AddressSpecification::Short(panid, a) => {
                    &&& final(self)@.short == old(self)@.short.remove((panid, a)).0
                    &&& r == short_action(old(self)@.short.remove((panid, a)).1)
                    &&& final(self)@.extended == old(self)@.extended
                },
                AddressSpecification::Extended(_, a) => {
                    &&& final(self)@.extended == old(self)@.extended.remove(a).0
                    &&& r == extended_action(old(self)@.extended.remove(a).1)
                    &&& final(self)@.short == old(self)@.short
                },
            },
    {
        match address {
            AddressSpecification::NotPresent => MRUAddressSetAction::Unchanged,
            AddressSpecification::Short(panid, a) => MRUAddressSetAction::from(self.short.remove(&(*panid, *a))),
            AddressSpecification::Extended(_, a) => MRUAddressSetAction::from(self.extended.remove(a)),
        }
    }

    /// The number of addresses in both sets.
    pub fn len(&self) -> (r: usize)
        requires
            self.wf(),
            self@.short.entries.len() + self@.extended.entries.len() <= usize::MAX,
        ensures
            r == self@.short.entries.len() + self@.extended.entries.len(),
    {
        self.short.len() + self.extended.len()
    }
}

} // verus!
