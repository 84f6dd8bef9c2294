use native_shim::column::{Column, ColumnValues, Table};
use native_shim::extract::{extract_i64, extract_string, CellValue};

#[test]
fn wide_unsigned_value_out_of_range_yields_nothing() {
    let too_big = (i64::MAX as u64) + 1;
    assert_eq!(extract_i64(&CellValue::UInt64(too_big)), None);
    assert_eq!(extract_i64(&CellValue::UInt64(u64::MAX)), None);
}

#[test]
fn in_range_values_are_extracted_exactly() {
    assert_eq!(extract_i64(&CellValue::UInt64(i64::MAX as u64)), Some(i64::MAX));
    assert_eq!(extract_i64(&CellValue::UInt64(0)), Some(0));
    assert_eq!(extract_i64(&CellValue::Int64(-5)), Some(-5));
    assert_eq!(extract_i64(&CellValue::Int32(-5)), Some(-5));
    assert_eq!(extract_i64(&CellValue::Int32(i32::MIN)), Some(i32::MIN as i64));
}

#[test]
fn non_numeric_cells_yield_no_signed_value() {
    assert_eq!(extract_i64(&CellValue::Null), None);
    assert_eq!(extract_i64(&CellValue::Bool(true)), None);
    assert_eq!(extract_i64(&CellValue::Utf8(String::from("12"))), None);
}

#[test]
fn string_extraction_renders_scalars() {
    assert_eq!(extract_string(&CellValue::Null), None);
    assert_eq!(extract_string(&CellValue::Utf8(String::from("abc"))), Some(String::from("abc")));
    assert_eq!(extract_string(&CellValue::Int64(-123)), Some(String::from("-123")));
    assert_eq!(extract_string(&CellValue::Int32(0)), Some(String::from("0")));
    assert_eq!(extract_string(&CellValue::UInt64(18446744073709551615)), Some(String::from("18446744073709551615")));
    assert_eq!(extract_string(&CellValue::Bool(true)), Some(String::from("true")));
    assert_eq!(extract_string(&CellValue::Bool(false)), Some(String::from("false")));
}

#[test]
fn table_access_covers_missing_column_and_row() {
    let t = Table::new(vec![
        Column::new(String::from("n"), ColumnValues::UInt64(vec![Some(3), Some(u64::MAX), None])),
    ])
    .unwrap();
    assert_eq!(t.get_i64(&String::from("n"), 0), Some(3));
    // Exceeds the signed range: rejected, not truncated.
    assert_eq!(t.get_i64(&String::from("n"), 1), None);
    // Null cell.
    assert_eq!(t.get_i64(&String::from("n"), 2), None);
    // Row out of range.
    assert_eq!(t.get_i64(&String::from("n"), 3), None);
    // No such column.
    assert_eq!(t.get_i64(&String::from("missing"), 0), None);
    // Rendering numbers through the string accessor.
    assert_eq!(t.get_string(&String::from("n"), 0), Some(String::from("3")));
    assert_eq!(t.get_string(&String::from("n"), 2), None);
}

#[test]
fn column_cell_reads_by_position() {
    let c = Column::new(String::from("x"), ColumnValues::Int32(vec![Some(9), None]));
    assert!(matches!(c.cell(0), Some(CellValue::Int32(9))));
    assert!(matches!(c.cell(1), Some(CellValue::Null)));
    assert!(c.cell(2).is_none());
}
