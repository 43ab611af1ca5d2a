use filelink::handoff::{HandoffError, HandoffSlot};

#[test]
fn slot_keeps_first_answer() {
    let mut slot = HandoffSlot::new();
    assert!(!slot.is_filled());
    assert_eq!(slot.answer(), None);
    assert_eq!(slot.publish("a".to_string()), Ok(()));
    assert_eq!(slot.publish("b".to_string()), Err(HandoffError::AlreadyFilled));
    assert!(slot.is_filled());
    assert_eq!(slot.answer(), Some("a".to_string()));
}
