use zigbee_mac::mru_set::{MRUSet, MRUSetAction};

#[test]
fn test_mru_set() {
    let mut set: MRUSet<char> = MRUSet::new(3);
    assert_eq!(3, set.num_free_slots());
    // Insert, reinsert, remove
    assert_eq!(MRUSetAction::SetSlot(0, 'A'), set.insert(&'A'));
    assert_eq!(MRUSetAction::Unchanged, set.insert(&'A'));
    assert_eq!(MRUSetAction::ClearSlot(0), set.remove(&'A'));
    // Insert B, C, D, taking 2, 3, 0
    assert_eq!(MRUSetAction::SetSlot(1, 'B'), set.insert(&'B'));
    assert_eq!(MRUSetAction::SetSlot(2, 'C'), set.insert(&'C'));
    assert_eq!(MRUSetAction::SetSlot(0, 'D'), set.insert(&'D'));
    // Promote B, so C should now be oldest
    assert_eq!(MRUSetAction::Unchanged, set.insert(&'B'));
    // New entry should get C's slot
    assert_eq!(MRUSetAction::SetSlot(2, 'E'), set.insert(&'E'));
    // C should get it's slot back
    assert_eq!(MRUSetAction::SetSlot(2, 'C'), set.remove(&'E'));
    // And lose it again
    assert_eq!(MRUSetAction::SetSlot(2, 'E'), set.insert(&'E'));
}

#[test]
fn mru_set_contains_len_and_slots() {
    let mut set: MRUSet<u16> = MRUSet::new(2);
    assert_eq!(set.len(), 0);
    set.insert(&10);
    set.insert(&20);
    set.insert(&30);
    assert_eq!(set.len(), 3);
    assert!(set.contains(&10));
    // Only the two newest hold a slot.
    assert_eq!(set.has_slot(&10), None);
    assert!(set.has_slot(&20).is_some());
    assert!(set.has_slot(&30).is_some());
    assert_eq!(set.remove(&99), MRUSetAction::Unchanged);
    assert_eq!(set.num_free_slots(), 0);
}

#[test]
fn mru_set_single_slot_goes_to_the_newest_member() {
    let mut set: MRUSet<char> = MRUSet::new(1);
    assert_eq!(MRUSetAction::SetSlot(0, 'A'), set.insert(&'A'));
    assert_eq!(MRUSetAction::SetSlot(0, 'B'), set.insert(&'B'));
    assert_eq!(set.has_slot(&'A'), None);
    // The slot goes back to A, now the most recent member.
    assert_eq!(MRUSetAction::SetSlot(0, 'A'), set.remove(&'B'));
    assert_eq!(set.has_slot(&'A'), Some(0));
    assert_eq!(MRUSetAction::Unchanged, set.insert(&'A'));
    assert_eq!(MRUSetAction::ClearSlot(0), set.remove(&'A'));
    assert_eq!(set.num_free_slots(), 1);
}
