use native_shim::bridge::{
    decode_prim, export_column, export_table, import_table, ArrayRecord, Buffer, PrimArray,
    SchemaField, SchemaRecord,
};
use native_shim::column::{Column, ColumnValues, PrimTag, Table};

fn two_column_table() -> Table {
    let ints = Column::new(
        String::from("ints"),
        ColumnValues::Int64(vec![Some(1), Some(2), None]),
    );
    let text = Column::new(
        String::from("text"),
        ColumnValues::Utf8(vec![Some(String::from("a")), None, Some(String::from("c"))]),
    );
    Table::new(vec![ints, text]).unwrap()
}

#[test]
fn export_import_reproduces_two_column_table() {
    let t = two_column_table();
    let (arr, sch) = export_table(&t);
    let back = import_table(arr, sch).unwrap();
    assert_eq!(back.height(), 3);
    assert_eq!(back.width(), 2);
    assert_eq!(back.get_column_name(0), Some(&String::from("ints")));
    assert_eq!(back.get_column_name(1), Some(&String::from("text")));
    // Null positions survive: row 2 of the first column, row 1 of the second.
    assert_eq!(back.get_i64(&String::from("ints"), 0), Some(1));
    assert_eq!(back.get_i64(&String::from("ints"), 1), Some(2));
    assert_eq!(back.get_i64(&String::from("ints"), 2), None);
    assert_eq!(back.get_string(&String::from("text"), 0), Some(String::from("a")));
    assert_eq!(back.get_string(&String::from("text"), 1), None);
    assert_eq!(back.get_string(&String::from("text"), 2), Some(String::from("c")));
}

#[test]
fn primitive_pairs_round_trip_every_supported_type() {
    let columns = vec![
        Column::new(String::from("b"), ColumnValues::Bool(vec![Some(true), None, Some(false)])),
        Column::new(String::from("i32"), ColumnValues::Int32(vec![None, Some(-7)])),
        Column::new(String::from("i64"), ColumnValues::Int64(vec![Some(i64::MIN), Some(i64::MAX)])),
        Column::new(String::from("u64"), ColumnValues::UInt64(vec![Some(u64::MAX), None])),
        Column::new(
            String::from("s"),
            ColumnValues::Utf8(vec![Some(String::new()), Some(String::from("xyz")), None]),
        ),
    ];
    for c in columns {
        let expected_name = c.name.clone();
        let (arr, field) = export_column(&c);
        let back = decode_prim(&arr, &field).unwrap();
        assert_eq!(back.name, expected_name);
        let single = import_table(ArrayRecord::Prim(arr), SchemaRecord::Prim(field)).unwrap();
        assert_eq!(single.width(), 1);
        assert_eq!(single.get_column_name(0), Some(&expected_name));
    }
}

#[test]
fn empty_table_round_trips() {
    let t = Table::empty();
    let (arr, sch) = export_table(&t);
    let back = import_table(arr, sch).unwrap();
    assert_eq!(back.width(), 0);
    assert_eq!(back.height(), 0);
}

#[test]
fn import_rejects_bitmap_shorter_than_buffer() {
    let a = PrimArray { validity: Some(vec![true]), buffer: Buffer::Int64(vec![1, 2, 3]) };
    let s = SchemaField { name: String::from("x"), tag: PrimTag::Int64, nullable: true };
    let e = decode_prim(&a, &s).unwrap_err();
    assert_eq!(e.message(), &String::from("validity bitmap does not cover buffer"));
}

#[test]
fn import_rejects_type_mismatch() {
    let a = PrimArray { validity: None, buffer: Buffer::Int64(vec![1]) };
    let s = SchemaField { name: String::from("x"), tag: PrimTag::Utf8, nullable: true };
    let e = decode_prim(&a, &s).unwrap_err();
    assert_eq!(e.message(), &String::from("type mismatch between array and schema"));
}

#[test]
fn import_rejects_null_in_non_nullable_field() {
    let a = PrimArray { validity: Some(vec![true, false]), buffer: Buffer::Bool(vec![true, true]) };
    let s = SchemaField { name: String::from("x"), tag: PrimTag::Bool, nullable: false };
    let e = decode_prim(&a, &s).unwrap_err();
    assert_eq!(e.message(), &String::from("null entry in non-nullable field"));
    let ok = PrimArray { validity: Some(vec![true, true]), buffer: Buffer::Bool(vec![true, true]) };
    assert!(decode_prim(&ok, &s).is_ok());
}

#[test]
fn import_rejects_mismatched_shapes() {
    let a = ArrayRecord::Prim(PrimArray { validity: None, buffer: Buffer::Int64(vec![]) });
    let s = SchemaRecord::Composite { name: String::new(), children: vec![] };
    let e = import_table(a, s).unwrap_err();
    assert_eq!(e.message(), &String::from("array and schema differ in shape"));
}

#[test]
fn import_rejects_child_count_mismatch() {
    let a = ArrayRecord::Composite {
        rows: 0,
        children: vec![PrimArray { validity: None, buffer: Buffer::Int64(vec![]) }],
    };
    let s = SchemaRecord::Composite { name: String::new(), children: vec![] };
    let e = import_table(a, s).unwrap_err();
    assert_eq!(e.message(), &String::from("array and schema differ in child count"));
}

#[test]
fn import_rejects_child_of_wrong_length() {
    let a = ArrayRecord::Composite {
        rows: 2,
        children: vec![PrimArray { validity: None, buffer: Buffer::Int64(vec![5]) }],
    };
    let s = SchemaRecord::Composite {
        name: String::new(),
        children: vec![SchemaField { name: String::from("x"), tag: PrimTag::Int64, nullable: true }],
    };
    let e = import_table(a, s).unwrap_err();
    assert_eq!(e.message(), &String::from("child length differs from row count"));
}

#[test]
fn import_rejects_duplicate_field_names() {
    let child = || PrimArray { validity: None, buffer: Buffer::Int64(vec![1]) };
    let field = || SchemaField { name: String::from("x"), tag: PrimTag::Int64, nullable: true };
    let a = ArrayRecord::Composite { rows: 1, children: vec![child(), child()] };
    let s = SchemaRecord::Composite { name: String::new(), children: vec![field(), field()] };
    let e = import_table(a, s).unwrap_err();
    assert_eq!(e.message(), &String::from("duplicate field name"));
}

#[test]
fn table_constructor_rejects_bad_columns() {
    let short = Column::new(String::from("a"), ColumnValues::Int64(vec![Some(1)]));
    let long = Column::new(String::from("b"), ColumnValues::Int64(vec![Some(1), Some(2)]));
    let e = Table::new(vec![short, long]).unwrap_err();
    assert_eq!(e.message(), &String::from("columns differ in length"));

    let a1 = Column::new(String::from("a"), ColumnValues::Int64(vec![Some(1)]));
    let a2 = Column::new(String::from("a"), ColumnValues::Int64(vec![Some(2)]));
    let e = Table::new(vec![a1, a2]).unwrap_err();
    assert_eq!(e.message(), &String::from("duplicate column name"));
}

#[test]
fn duplicate_is_independent_and_equal() {
    let t = two_column_table();
    let copy = t.duplicate();
    assert_eq!(copy.height(), t.height());
    assert_eq!(copy.width(), t.width());
    assert_eq!(copy.get_i64(&String::from("ints"), 1), Some(2));
    drop(t);
    assert_eq!(copy.get_string(&String::from("text"), 2), Some(String::from("c")));
}

#[test]
fn import_then_export_reproduces_the_pair_logically() {
    // Build a pair by hand (no validity bitmap at all), import it, export
    // the result, and import again: the logical type tree and the
    // element-wise values come back identical.
    let a = ArrayRecord::Composite {
        rows: 2,
        children: vec![
            PrimArray { validity: None, buffer: Buffer::Int64(vec![7, 8]) },
            PrimArray { validity: Some(vec![true, false]), buffer: Buffer::Bool(vec![true, true]) },
        ],
    };
    let s = SchemaRecord::Composite {
        name: String::new(),
        children: vec![
            SchemaField { name: String::from("n"), tag: PrimTag::Int64, nullable: true },
            SchemaField { name: String::from("f"), tag: PrimTag::Bool, nullable: true },
        ],
    };
    let t1 = import_table(a, s).unwrap();
    let (a2, s2) = export_table(&t1);
    let t2 = import_table(a2, s2).unwrap();
    assert_eq!(t2.width(), 2);
    assert_eq!(t2.height(), 2);
    assert_eq!(t2.get_i64(&String::from("n"), 0), Some(7));
    assert_eq!(t2.get_i64(&String::from("n"), 1), Some(8));
    assert_eq!(t2.get_string(&String::from("f"), 0), Some(String::from("true")));
    assert_eq!(t2.get_string(&String::from("f"), 1), None);
}

#[test]
fn table_of_no_columns_is_accepted() {
    let t = Table::new(vec![]).unwrap();
    assert_eq!(t.width(), 0);
    assert_eq!(t.height(), 0);
    assert_eq!(t.get_column_name(0), None);
}
