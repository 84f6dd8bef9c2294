use native_shim::barrier::{fault_message, fault_of_payload, guard, guard_void, Failure, FaultPayload};
use native_shim::error_slot::ErrorSlot;

#[test]
fn fresh_slot_is_clear() {
    let mut slot = ErrorSlot::empty();
    assert!(!slot.has_pending());
    assert_eq!(slot.take(), None);
}

#[test]
fn message_is_delivered_exactly_once() {
    let mut slot = ErrorSlot::empty();
    slot.set_error(String::from("shape mismatch"));
    assert!(slot.has_pending());
    let first = slot.take();
    assert_eq!(first, Some(String::from("shape mismatch")));
    let second = slot.take();
    assert_eq!(second, None);
    assert!(!slot.has_pending());
}

#[test]
fn set_error_replaces_pending_message() {
    let mut slot = ErrorSlot::empty();
    slot.set_error(String::from("first"));
    slot.set_error(String::from("second"));
    assert_eq!(slot.take(), Some(String::from("second")));
    assert_eq!(slot.take(), None);
}

#[test]
fn clear_drops_message_without_delivery() {
    let mut slot = ErrorSlot::empty();
    slot.set_error(String::from("never read"));
    slot.clear();
    assert_eq!(slot.take(), None);
}

#[test]
fn guard_passes_success_through() {
    let mut slot = ErrorSlot::empty();
    let r: Option<i32> = guard(&mut slot, Ok(7));
    assert_eq!(r, Some(7));
    assert!(!slot.has_pending());
}

#[test]
fn guard_records_domain_failure_and_returns_sentinel() {
    let mut slot = ErrorSlot::empty();
    let r: Option<i32> = guard(&mut slot, Err(Failure::Domain(String::from("bad column"))));
    assert_eq!(r, None);
    assert_eq!(slot.take(), Some(String::from("bad column")));
    assert_eq!(slot.take(), None);
}

#[test]
fn guard_records_fault_like_domain_failure() {
    let mut slot = ErrorSlot::empty();
    let f = fault_of_payload(FaultPayload::Text(String::from("index out of bounds")));
    let r: Option<u64> = guard(&mut slot, Err(f));
    assert_eq!(r, None);
    assert_eq!(slot.take(), Some(String::from("index out of bounds")));
}

#[test]
fn guard_void_records_failure() {
    let mut slot = ErrorSlot::empty();
    guard_void(&mut slot, Ok(()));
    assert!(!slot.has_pending());
    guard_void(&mut slot, Err(Failure::Fault(String::from("broken invariant"))));
    assert_eq!(slot.take(), Some(String::from("broken invariant")));
}

#[test]
fn opaque_fault_payload_yields_stock_message() {
    assert_eq!(fault_message(FaultPayload::Opaque), String::from("Unknown Rust Panic"));
    assert_eq!(
        fault_message(FaultPayload::Text(String::from("boom"))),
        String::from("boom")
    );
}

#[test]
fn failure_message_accessors_agree() {
    let d = Failure::Domain(String::from("rejected"));
    assert_eq!(d.message(), &String::from("rejected"));
    assert_eq!(d.into_message(), String::from("rejected"));
    let f = Failure::Fault(String::from("caught"));
    assert_eq!(f.into_message(), String::from("caught"));
}
