use native_shim::handle::HandleTable;

#[test]
fn construct_then_borrow_reads_the_value() {
    let mut table: HandleTable<String> = HandleTable::new();
    let h = table.construct(String::from("a native value"));
    assert!(table.is_live(h));
    assert_eq!(table.borrow_handle(h), Some(&String::from("a native value")));
    assert!(table.is_live(h));
}

#[test]
fn consumed_handle_is_dead_for_borrowing() {
    let mut table: HandleTable<u64> = HandleTable::new();
    let h = table.construct(41);
    let taken = table.consume(h);
    assert_eq!(taken, Some(41));
    assert!(!table.is_live(h));
    assert_eq!(table.borrow_handle(h), None);
    assert_eq!(table.consume(h), None);
}

#[test]
fn consuming_yields_a_fresh_replacement_handle() {
    let mut table: HandleTable<u64> = HandleTable::new();
    let h = table.construct(1);
    let v = table.consume(h).unwrap();
    let h2 = table.construct(v + 1);
    assert_ne!(h, h2);
    assert_eq!(table.borrow_handle(h2), Some(&2));
    assert_eq!(table.borrow_handle(h), None);
}

#[test]
fn free_releases_and_tolerates_dead_handles() {
    let mut table: HandleTable<bool> = HandleTable::new();
    let h = table.construct(true);
    table.free(h);
    assert!(!table.is_live(h));
    table.free(h);
    assert!(!table.is_live(h));
    let missing: usize = 1000;
    table.free(missing);
}

#[test]
fn handles_are_independent() {
    let mut table: HandleTable<u64> = HandleTable::new();
    let h1 = table.construct(10);
    let h2 = table.construct(20);
    let _ = table.consume(h1);
    assert_eq!(table.borrow_handle(h2), Some(&20));
}

#[test]
fn consuming_a_list_takes_every_handle() {
    let mut table: HandleTable<u64> = HandleTable::new();
    let h1 = table.construct(10);
    let h2 = table.construct(20);
    let h3 = table.construct(30);
    let values = table.consume_all(&vec![h3, h1]).unwrap();
    assert_eq!(values, vec![30, 10]);
    assert!(!table.is_live(h1));
    assert!(!table.is_live(h3));
    assert_eq!(table.borrow_handle(h2), Some(&20));
}

#[test]
fn consuming_a_list_with_a_dead_or_repeated_handle_changes_nothing() {
    let mut table: HandleTable<u64> = HandleTable::new();
    let h1 = table.construct(1);
    let h2 = table.construct(2);
    table.free(h2);
    assert_eq!(table.consume_all(&vec![h1, h2]), None);
    assert!(table.is_live(h1));
    assert_eq!(table.consume_all(&vec![h1, h1]), None);
    assert!(table.is_live(h1));
    assert_eq!(table.consume_all(&vec![h1]), Some(vec![1]));
}
