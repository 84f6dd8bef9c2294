use native_shim::barrier::guard;
use native_shim::bridge::{Buffer, PrimArray, SchemaField};
use native_shim::column::PrimTag;
use native_shim::bridge::export_column;
use native_shim::callback::{apply_reply, CallbackBinding, CleanupLog};
use native_shim::column::{Column, ColumnValues};
use native_shim::error_slot::ErrorSlot;

#[test]
fn cleanup_runs_once_without_any_invocation() {
    // The node is dropped before the engine ever ran it (an unused plan, or
    // an early abort): the cleanup still runs, exactly once.
    let mut log = CleanupLog::new();
    let mut node = CallbackBinding::bind(77);
    node.release(&mut log);
    assert_eq!(log.count(77), 1);
    assert_eq!(log.total(), 1);
}

#[test]
fn cleanup_runs_once_after_many_invocations() {
    let mut log = CleanupLog::new();
    let mut node = CallbackBinding::bind(5);
    let input = Column::new(String::from("c"), ColumnValues::Int64(vec![Some(1), Some(2)]));
    // The engine processes several chunks: each invocation exports the
    // column and applies the host's reply; none touches the resource.
    for _ in 0..3 {
        let (arr, sch) = export_column(&input);
        let replaced = apply_reply(&input.name, 0, &String::new(), &arr, &sch).unwrap();
        assert_eq!(replaced.name, String::from("c"));
        assert!(!node.released);
    }
    node.release(&mut log);
    assert_eq!(log.count(5), 1);
}

#[test]
fn second_release_does_not_run_cleanup_again() {
    let mut log = CleanupLog::new();
    let mut node = CallbackBinding::bind(9);
    node.release(&mut log);
    node.release(&mut log);
    node.release(&mut log);
    assert_eq!(log.count(9), 1);
    assert_eq!(log.total(), 1);
}

#[test]
fn distinct_nodes_release_their_own_tokens() {
    let mut log = CleanupLog::new();
    let mut a = CallbackBinding::bind(1);
    let mut b = CallbackBinding::bind(2);
    b.release(&mut log);
    a.release(&mut log);
    a.release(&mut log);
    assert_eq!(log.count(1), 1);
    assert_eq!(log.count(2), 1);
    assert_eq!(log.count(3), 0);
    assert_eq!(log.total(), 2);
}

#[test]
fn rejecting_callback_fails_the_operation_with_its_message() {
    // The host callback refuses the chunk with status 1 and a message; the
    // operation fails and the diagnostic accessor surfaces the message.
    let input = Column::new(String::from("c"), ColumnValues::Utf8(vec![Some(String::from("a"))]));
    let (arr, sch) = export_column(&input);
    let reply = apply_reply(&input.name, 1, &String::from("bad type"), &arr, &sch);
    let failure = reply.unwrap_err();
    let mut slot = ErrorSlot::empty();
    let r: Option<Column> = guard(&mut slot, Err(failure));
    assert!(r.is_none());
    let msg = slot.take().unwrap();
    assert!(msg.contains("bad type"));
    assert_eq!(msg, String::from("host callback failed: bad type"));
    assert_eq!(slot.take(), None);
}

#[test]
fn successful_reply_replaces_the_column_under_its_name() {
    let input = Column::new(String::from("orig"), ColumnValues::Int64(vec![Some(1), None]));
    // The host answers with a transformed column; whatever name the host
    // wrote on the result, the replacement keeps the input column's name.
    let transformed = Column::new(
        String::from("written by host"),
        ColumnValues::Int64(vec![Some(2), None]),
    );
    let (arr, sch) = export_column(&transformed);
    let replaced = apply_reply(&input.name, 0, &String::new(), &arr, &sch).unwrap();
    assert_eq!(replaced.name, String::from("orig"));
    assert!(matches!(
        replaced.cell(0),
        Some(native_shim::extract::CellValue::Int64(2))
    ));
    assert!(matches!(
        replaced.cell(1),
        Some(native_shim::extract::CellValue::Null)
    ));
}

#[test]
fn malformed_reply_fails_the_operation() {
    let bad = PrimArray { validity: Some(vec![true]), buffer: Buffer::Int64(vec![1, 2]) };
    let sch = SchemaField { name: String::from("x"), tag: PrimTag::Int64, nullable: true };
    let r = apply_reply(&String::from("orig"), 0, &String::new(), &bad, &sch);
    assert!(r.is_err());
}
