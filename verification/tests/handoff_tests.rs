use resilience_core::handoff::{DeferredHandoff, HandoffError};

#[test]
fn test_handoff_fulfill_then_take() {
    let mut slot = DeferredHandoff::new();
    assert!(slot.is_empty());
    slot.fulfill(b"signature-bytes".to_vec());
    assert!(slot.is_fulfilled());
    let taken = slot.take();
    assert_eq!(taken.unwrap(), b"signature-bytes".to_vec());
    assert!(!slot.is_fulfilled());
    assert!(!slot.is_empty());
}

#[test]
fn test_handoff_abandon_then_take() {
    let mut slot = DeferredHandoff::new();
    slot.abandon();
    assert!(slot.is_abandoned());
    let taken = slot.take();
    assert_eq!(taken.unwrap_err(), HandoffError::Abandoned);
}
