use zigbee_mac::ieee802154::mac::pending_handler::PendingHandler;

#[test]
fn test_pending_handler() {
    let mut handler = PendingHandler::new(vec![1, 2, 3]);
    // Insert one, remove it, should return the same slot.
    assert_eq!(Some(1), handler.promote("A"));
    assert_eq!(Some(1), handler.clear("A"));
    // Add B, C, D, taking 2, 3, 1
    assert_eq!(Some(2), handler.promote("B"));
    assert_eq!(Some(3), handler.promote("C"));
    assert_eq!(Some(1), handler.promote("D"));
    // Promote B, so C is now oldest
    assert_eq!(None, handler.promote("B"));
    // New entry should get C's slot
    assert_eq!(Some(3), handler.promote("E"));
    assert_eq!(None, handler.promote("D"));
    assert_eq!(None, handler.promote("B"));
    assert_eq!(None, handler.promote("E"));
    // If we reinsert C, it should now get D's slot
    assert_eq!(Some(1), handler.promote("C"));
}

#[test]
fn pending_handler_clear_unknown_and_reuse() {
    let mut handler: PendingHandler<u8, u16> = PendingHandler::new(vec![7, 8]);
    assert_eq!(None, handler.clear(5));
    assert_eq!(Some(7), handler.promote(5));
    assert_eq!(Some(8), handler.promote(6));
    // A cleared slot goes to the back of the free list and is handed out next.
    assert_eq!(Some(7), handler.clear(5));
    assert_eq!(None, handler.clear(5));
    assert_eq!(Some(7), handler.promote(9));
    // With no free slot, the least recently promoted item (6) loses its slot.
    assert_eq!(Some(8), handler.promote(10));
    assert_eq!(None, handler.clear(6));
}
