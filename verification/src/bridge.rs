//! The columnar interchange bridge: tables and columns move across the
//! boundary as flat record pairs, one describing raw buffers and one
//! describing the logical type.
//!
//! An exported pair always decodes back to what was exported; an imported
//! pair is validated (matching lengths, matching types, no null in a field
//! declared non-nullable, no duplicated field names) and rejected as a
//! domain failure otherwise — never by reading past a buffer.
//!
//! A multi-column table travels as a single composite record whose children
//! are the individual columns, preserving column order and names; a single
//! column travels as a primitive record taking its name from the schema
//! node.

use vstd::prelude::*;

use crate::barrier::Failure;
use crate::column::{Column, ColumnModel, ColumnValues, PrimTag, Table, ValuesModel, columns_wf};

verus! {

/// The raw values of one primitive array, nulls filled with an arbitrary
/// placeholder.
#[derive(Debug)]
pub enum Buffer {
    Bool(Vec<bool>),
    Int32(Vec<i32>),
    Int64(Vec<i64>),
    UInt64(Vec<u64>),
    Utf8(Vec<String>),
}

/// The physical form of one column: a buffer of raw values and an optional
/// validity bitmap; a missing bitmap means every entry is valid.
#[derive(Debug)]
pub struct PrimArray {
    pub validity: Option<Vec<bool>>,
    pub buffer: Buffer,
}

/// The schema node describing one primitive array: its name, its type, and
/// whether null entries are admitted.
#[derive(Debug)]
pub struct SchemaField {
    pub name: String,
    pub tag: PrimTag,
    pub nullable: bool,
}

/// The array side of an interchange pair: one primitive array, or a
/// composite of primitive children sharing a row count.
#[derive(Debug)]
pub enum ArrayRecord {
    Prim(PrimArray),
    Composite { rows: usize, children: Vec<PrimArray> },
}

/// The schema side of an interchange pair, mirroring the array's shape.
#[derive(Debug)]
pub enum SchemaRecord {
    Prim(SchemaField),
    Composite { name: String, children: Vec<SchemaField> },
}

/// The number of raw values in a buffer.
pub open spec fn buffer_len(b: Buffer) -> nat {
    match b {
        Buffer::Bool(v) => v@.len(),
        Buffer::Int32(v) => v@.len(),
        Buffer::Int64(v) => v@.len(),
        Buffer::UInt64(v) => v@.len(),
        Buffer::Utf8(v) => v@.len(),
    }
}

/// The primitive type a buffer carries.
pub open spec fn buffer_tag(b: Buffer) -> PrimTag {
    match b {
        Buffer::Bool(_) => PrimTag::Bool,
        Buffer::Int32(_) => PrimTag::Int32,
        Buffer::Int64(_) => PrimTag::Int64,
        Buffer::UInt64(_) => PrimTag::UInt64,
        Buffer::Utf8(_) => PrimTag::Utf8,
    }
}

/// Whether a bitmap marks position `i` valid; a missing bitmap marks every
/// position valid.
pub open spec fn validity_at(validity: Option<Vec<bool>>, i: int) -> bool {
    match validity {
        Some(bits) => bits@[i],
        None => true,
    }
}

/// A primitive array is well formed when its bitmap, if present, covers the
/// buffer exactly.
pub open spec fn prim_wf(a: PrimArray) -> bool {
    match a.validity {
        Some(bits) => bits@.len() == buffer_len(a.buffer),
        None => true,
    }
}

/// Whether every entry of a primitive array is valid.
pub open spec fn all_valid(a: PrimArray) -> bool {
    forall|i: int| 0 <= i < buffer_len(a.buffer) ==> validity_at(a.validity, i)
}

/// The logical entries a primitive array denotes: the buffer's values where
/// the bitmap marks them valid, nulls elsewhere.
pub open spec fn logical_values(a: PrimArray) -> ValuesModel {
    match a.buffer {
        Buffer::Bool(v) => ValuesModel::Bool(
            Seq::new(
                v@.len(),
                |i: int|
                    if validity_at(a.validity, i) {
                        Some(v@[i])
                    } else {
                        None
                    },
            ),
        ),
        Buffer::Int32(v) => ValuesModel::Int32(
            Seq::new(
                v@.len(),
                |i: int|
                    if validity_at(a.validity, i) {
                        Some(v@[i])
                    } else {
                        None
                    },
            ),
        ),
        Buffer::Int64(v) => ValuesModel::Int64(
            Seq::new(
                v@.len(),
                |i: int|
                    if validity_at(a.validity, i) {
                        Some(v@[i])
                    } else {
                        None
                    },
            ),
        ),
        Buffer::UInt64(v) => ValuesModel::UInt64(
            Seq::new(
                v@.len(),
                |i: int|
                    if validity_at(a.validity, i) {
                        Some(v@[i])
                    } else {
                        None
                    },
            ),
        ),
        Buffer::Utf8(v) => ValuesModel::Utf8(
            Seq::new(
                v@.len(),
                |i: int|
                    if validity_at(a.validity, i) {
                        Some(v@[i]@)
                    } else {
                        None
                    },
            ),
        ),
    }
}

/// What one primitive pair decodes to: the named logical column, or nothing
/// when the pair is malformed (bitmap and buffer disagree, type tags
/// disagree, or a null entry sits in a non-nullable field).
pub open spec fn spec_decode(a: PrimArray, s: SchemaField) -> Option<ColumnModel> {
    if prim_wf(a) && buffer_tag(a.buffer) == s.tag && (s.nullable || all_valid(a)) {
        Some(ColumnModel { name: s.name@, values: logical_values(a) })
    } else {
        None
    }
}

/// Fills a buffer and bitmap from optional entries of a type that copies.
fn encode_opt<T: Copy>(vals: &Vec<Option<T>>, fill: T) -> (r: (Vec<T>, Vec<bool>))
    ensures
        r.0@.len() == vals@.len(),
        r.1@.len() == vals@.len(),
        forall|i: int|
            0 <= i < vals@.len() ==> match #[trigger] vals@[i] {
                Some(v) => r.1@[i] && r.0@[i] == v,
                None => !r.1@[i],
            },
{
    let mut buf: Vec<T> = Vec::new();
    let mut bits: Vec<bool> = Vec::new();
    let mut i: usize = 0;
    while i < vals.len()
        invariant
            0 <= i <= vals@.len(),
            buf@.len() == i,
            bits@.len() == i,
            forall|k: int|
                0 <= k < i ==> match #[trigger] vals@[k] {
                    Some(v) => bits@[k] && buf@[k] == v,
                    None => !bits@[k],
                },
        decreases vals@.len() - i,
    {
        match vals[i] {
            Some(v) => {
                buf.push(v);
                bits.push(true);
            },
            None => {
                buf.push(fill);
                bits.push(false);
            },
        }
        i = i + 1;
    }
    (buf, bits)
}

/// Reads optional entries back out of a buffer and bitmap of a type that
/// copies.
fn decode_opt<T: Copy>(vals: &Vec<T>, validity: &Option<Vec<bool>>) -> (r: Vec<Option<T>>)
    requires
        match validity {
            Some(bits) => bits@.len() == vals@.len(),
            None => true,
        },
    ensures
        r@.len() == vals@.len(),
        forall|i: int|
            0 <= i < vals@.len() ==> r@[i] == (if validity_at(*validity, i) {
                Some(vals@[i])
            } else {
                None::<T>
            }),
{
    let mut out: Vec<Option<T>> = Vec::new();
    let mut i: usize = 0;
    while i < vals.len()
        invariant
            0 <= i <= vals@.len(),
            out@.len() == i,
            match validity {
                Some(bits) => bits@.len() == vals@.len(),
                None => true,
            },
            forall|k: int|
                0 <= k < i ==> out@[k] == (if validity_at(*validity, k) {
                    Some(vals@[k])
                } else {
                    None::<T>
                }),
        decreases vals@.len() - i,
    {
        let valid = match validity {
            Some(bits) => bits[i],
            None => true,
        };
        if valid {
            out.push(Some(vals[i]));
        } else {
            out.push(None);
        }
        i = i + 1;
    }
    out
}

/// Fills a buffer and bitmap from optional strings; nulls leave an empty
/// placeholder behind.
fn encode_opt_str(vals: &Vec<Option<String>>) -> (r: (Vec<String>, Vec<bool>))
    ensures
        r.0@.len() == vals@.len(),
        r.1@.len() == vals@.len(),
        forall|i: int|
            0 <= i < vals@.len() ==> match #[trigger] vals@[i] {
                Some(v) => r.1@[i] && r.0@[i]@ == v@,
                None => !r.1@[i],
            },
{
    let mut buf: Vec<String> = Vec::new();
    let mut bits: Vec<bool> = Vec::new();
    let mut i: usize = 0;
    while i < vals.len()
        invariant
            0 <= i <= vals@.len(),
            buf@.len() == i,
            bits@.len() == i,
            forall|k: int|
                0 <= k < i ==> match #[trigger] vals@[k] {
                    Some(v) => bits@[k] && buf@[k]@ == v@,
                    None => !bits@[k],
                },
        decreases vals@.len() - i,
    {
        match &vals[i] {
            Some(v) => {
                buf.push(v.clone());
                bits.push(true);
            },
            None => {
                buf.push(String::new());
                bits.push(false);
            },
        }
        i = i + 1;
    }
    (buf, bits)
}

/// Reads optional strings back out of a buffer and bitmap.
fn decode_opt_str(vals: &Vec<String>, validity: &Option<Vec<bool>>) -> (r: Vec<Option<String>>)
    requires
        match validity {
            Some(bits) => bits@.len() == vals@.len(),
            None => true,
        },
    ensures
        r@.len() == vals@.len(),
        forall|i: int|
            0 <= i < vals@.len() ==> (#[trigger] r@[i]).deep_view() == (if validity_at(
                *validity,
                i,
            ) {
                Some(vals@[i]@)
            } else {
                None::<Seq<char>>
            }),
{
    let mut out: Vec<Option<String>> = Vec::new();
    let mut i: usize = 0;
    while i < vals.len()
        invariant
            0 <= i <= vals@.len(),
            out@.len() == i,
            match validity {
                Some(bits) => bits@.len() == vals@.len(),
                None => true,
            },
            forall|k: int|
                0 <= k < i ==> (#[trigger] out@[k]).deep_view() == (if validity_at(
                    *validity,
                    k,
                ) {
                    Some(vals@[k]@)
                } else {
                    None::<Seq<char>>
                }),
        decreases vals@.len() - i,
    {
        let valid = match validity {
            Some(bits) => bits[i],
            None => true,
        };
        if valid {
            out.push(Some(vals[i].clone()));
        } else {
            out.push(None);
        }
        i = i + 1;
    }
    out
}

/// Encodes a column's entries into their physical form. The result is well
/// formed, carries the entries' type, and decodes back to exactly the
/// entries encoded.
pub fn encode_values(values: &ColumnValues) -> (a: PrimArray)
    ensures
        prim_wf(a),
        buffer_tag(a.buffer) == values@.tag(),
        buffer_len(a.buffer) == values@.len(),
        logical_values(a) == values@,
{
    match values {
        ColumnValues::Bool(v) => {
            let (buf, bits) = encode_opt(v, false);
            let a = PrimArray { validity: Some(bits), buffer: Buffer::Bool(buf) };
            proof {
                assert(logical_values(a) =~= values@);
            }
            a
        },
        ColumnValues::Int32(v) => {
            let (buf, bits) = encode_opt(v, 0i32);
            let a = PrimArray { validity: Some(bits), buffer: Buffer::Int32(buf) };
            proof {
                assert(logical_values(a) =~= values@);
            }
            a
        },
        ColumnValues::Int64(v) => {
            let (buf, bits) = encode_opt(v, 0i64);
            let a = PrimArray { validity: Some(bits), buffer: Buffer::Int64(buf) };
            proof {
                assert(logical_values(a) =~= values@);
            }
            a
        },
        ColumnValues::UInt64(v) => {
            let (buf, bits) = encode_opt(v, 0u64);
            let a = PrimArray { validity: Some(bits), buffer: Buffer::UInt64(buf) };
            proof {
                assert(logical_values(a) =~= values@);
            }
            a
        },
        ColumnValues::Utf8(v) => {
            let (buf, bits) = encode_opt_str(v);
            let a = PrimArray { validity: Some(bits), buffer: Buffer::Utf8(buf) };
            proof {
                assert(logical_values(a) =~= values@);
            }
            a
        },
    }
}

/// Whether every entry of the array is valid, by scanning the bitmap.
fn check_all_valid(a: &PrimArray) -> (b: bool)
    requires
        prim_wf(*a),
    ensures
        b == all_valid(*a),
{
    match &a.validity {
        None => true,
        Some(bits) => {
            let mut i: usize = 0;
            while i < bits.len()
                invariant
                    0 <= i <= bits@.len(),
                    a.validity matches Some(bs) && bs@ == bits@,
                    bits@.len() == buffer_len(a.buffer),
                    forall|k: int| 0 <= k < i ==> validity_at(a.validity, k),
                decreases bits@.len() - i,
            {
                if !bits[i] {
                    proof {
                        assert(!validity_at(a.validity, i as int));
                    }
                    return false;
                }
                i = i + 1;
            }
            true
        },
    }
}

/// Checks a bitmap against its buffer.
fn check_prim_wf(a: &PrimArray) -> (b: bool)
    ensures
        b == prim_wf(*a),
{
    let blen = match &a.buffer {
        Buffer::Bool(v) => v.len(),
        Buffer::Int32(v) => v.len(),
        Buffer::Int64(v) => v.len(),
        Buffer::UInt64(v) => v.len(),
        Buffer::Utf8(v) => v.len(),
    };
    match &a.validity {
        None => true,
        Some(bits) => bits.len() == blen,
    }
}

/// Decodes one primitive pair into a named column; exactly the pairs
/// [`spec_decode`] accepts succeed, and a malformed pair is a domain
/// failure.
pub fn decode_prim(a: &PrimArray, s: &SchemaField) -> (r: Result<Column, Failure>)
    ensures
        match r {
            Ok(c) => spec_decode(*a, *s) == Some(c@),
            Err(f) => spec_decode(*a, *s) is None && f is Domain,
        },
{
    if !check_prim_wf(a) {
        return Err(Failure::Domain(String::from_str("validity bitmap does not cover buffer")));
    }
    if !s.nullable && !check_all_valid(a) {
        return Err(Failure::Domain(String::from_str("null entry in non-nullable field")));
    }
    let values = match (&a.buffer, s.tag) {
        (Buffer::Bool(v), PrimTag::Bool) => ColumnValues::Bool(decode_opt(v, &a.validity)),
        (Buffer::Int32(v), PrimTag::Int32) => ColumnValues::Int32(decode_opt(v, &a.validity)),
        (Buffer::Int64(v), PrimTag::Int64) => ColumnValues::Int64(decode_opt(v, &a.validity)),
        (Buffer::UInt64(v), PrimTag::UInt64) => ColumnValues::UInt64(decode_opt(v, &a.validity)),
        (Buffer::Utf8(v), PrimTag::Utf8) => ColumnValues::Utf8(decode_opt_str(v, &a.validity)),
        _ => {
            return Err(
                Failure::Domain(String::from_str("type mismatch between array and schema")),
            );
        },
    };
    proof {
        assert(values@ =~= logical_values(*a));
    }
    Ok(Column { name: s.name.clone(), values })
}

/// Exports one column as a primitive interchange pair; the pair decodes back
/// to exactly the column exported, and its schema node carries the column's
/// name and type and admits nulls.
pub fn export_column(c: &Column) -> (r: (PrimArray, SchemaField))
    ensures
        r.1.name@ == c@.name,
        r.1.tag == c@.values.tag(),
        r.1.nullable,
        buffer_len(r.0.buffer) == c@.values.len(),
        spec_decode(r.0, r.1) == Some(c@),
{
    let a = encode_values(&c.values);
    let s = SchemaField { name: c.name.clone(), tag: c.values.tag(), nullable: true };
    (a, s)
}

/// Whether no two schema fields share a name.
pub open spec fn fields_distinct(fields: Seq<SchemaField>) -> bool {
    forall|i: int, j: int|
        0 <= i < fields.len() && 0 <= j < fields.len() && i != j ==> (#[trigger] fields[i].name)@
            != (#[trigger] fields[j].name)@
}

/// What an interchange pair imports to: the sequence of named logical
/// columns, or nothing when the pair is rejected. A composite pair is
/// accepted when array and schema have equally many children, every child
/// pair decodes, every child matches the composite row count, and no two
/// fields share a name; a primitive pair is accepted when it decodes, and
/// yields a single column named from its schema node. A pair whose two
/// sides differ in shape is rejected.
pub open spec fn spec_import(a: ArrayRecord, s: SchemaRecord) -> Option<Seq<ColumnModel>> {
    match (a, s) {
        (ArrayRecord::Prim(pa), SchemaRecord::Prim(f)) => match spec_decode(pa, f) {
            Some(c) => Some(seq![c]),
            None => None,
        },
        (
            ArrayRecord::Composite { rows, children },
            SchemaRecord::Composite { name: _, children: fields },
        ) => {
            if {
                &&& children@.len() == fields@.len()
                &&& forall|i: int|
                    0 <= i < children@.len() ==> (#[trigger] spec_decode(
                        children@[i],
                        fields@[i],
                    )) is Some
                &&& forall|i: int|
                    0 <= i < children@.len() ==> buffer_len((#[trigger] children@[i]).buffer)
                        == rows
                &&& fields_distinct(fields@)
            } {
                Some(
                    Seq::new(
                        children@.len(),
                        |i: int| spec_decode(children@[i], fields@[i])->Some_0,
                    ),
                )
            } else {
                None
            }
        },
        _ => None,
    }
}

/// A primitive array denotes as many logical entries as its buffer holds.
pub proof fn lemma_logical_len(a: PrimArray)
    ensures
        logical_values(a).len() == buffer_len(a.buffer),
{
}

/// What imports does form a table: equal column lengths and distinct names.
pub proof fn lemma_imported_columns_wf(a: ArrayRecord, s: SchemaRecord)
    requires
        spec_import(a, s) is Some,
    ensures
        columns_wf(spec_import(a, s)->Some_0),
{
    let cols = spec_import(a, s)->Some_0;
    match (a, s) {
        (ArrayRecord::Prim(pa), SchemaRecord::Prim(f)) => {
            assert(cols.len() == 1);
        },
        (
            ArrayRecord::Composite { rows, children },
            SchemaRecord::Composite { name: _, children: fields },
        ) => {
            assert forall|i: int| 0 <= i < cols.len() implies (#[trigger] cols[i].values.len())
                == cols[0].values.len() by {
                lemma_logical_len(children@[i]);
                if cols.len() > 0 {
                    lemma_logical_len(children@[0]);
                }
            }
            assert forall|i: int, j: int|
                0 <= i < cols.len() && 0 <= j < cols.len() && i != j implies (
            #[trigger] cols[i].name) != (#[trigger] cols[j].name) by {
                assert(fields@[i].name@ != fields@[j].name@);
            }
        },
        _ => {},
    }
}

/// The description every exported table pair satisfies: a composite whose
/// children are the table's columns in order, each decoding back to its
/// column, with the table's height as row count and an unnamed root node.
pub open spec fn export_describes(cols: Seq<ColumnModel>, a: ArrayRecord, s: SchemaRecord) -> bool {
    match (a, s) {
        (
            ArrayRecord::Composite { rows, children },
            SchemaRecord::Composite { name, children: fields },
        ) => {
            &&& name@ == Seq::<char>::empty()
            &&& children@.len() == cols.len()
            &&& fields@.len() == cols.len()
            &&& rows as nat == (if cols.len() == 0 {
                0nat
            } else {
                cols[0].values.len()
            })
            &&& forall|i: int|
                0 <= i < cols.len() ==> (#[trigger] spec_decode(children@[i], fields@[i]))
                    == Some(cols[i])
        },
        _ => false,
    }
}

/// Round trip, one direction: importing any pair that describes an export
/// of a table yields exactly that table's columns — the same names, the
/// same logical types, the same values with the same null positions.
pub proof fn lemma_import_reverses_export(cols: Seq<ColumnModel>, a: ArrayRecord, s: SchemaRecord)
    requires
        columns_wf(cols),
        export_describes(cols, a, s),
    ensures
        spec_import(a, s) == Some(cols),
{
    match (a, s) {
        (
            ArrayRecord::Composite { rows, children },
            SchemaRecord::Composite { name: _, children: fields },
        ) => {
            assert forall|i: int| 0 <= i < children@.len() implies buffer_len(
                (#[trigger] children@[i]).buffer,
            ) == rows by {
                lemma_logical_len(children@[i]);
                assert(spec_decode(children@[i], fields@[i]) == Some(cols[i]));
                assert(cols[i].values == logical_values(children@[i]));
                assert(cols[i].values.len() == cols[0].values.len());
            }
            assert forall|i: int, j: int|
                0 <= i < fields@.len() && 0 <= j < fields@.len() && i != j implies (
            #[trigger] fields@[i].name)@ != (#[trigger] fields@[j].name)@ by {
                assert(spec_decode(children@[i], fields@[i]) == Some(cols[i]));
                assert(spec_decode(children@[j], fields@[j]) == Some(cols[j]));
                assert(cols[i].name == fields@[i].name@);
                assert(cols[j].name == fields@[j].name@);
            }
            assert(spec_import(a, s) is Some);
            assert(spec_import(a, s)->Some_0 =~= cols);
        },
        _ => {},
    }
}

/// Round trip, the other direction: exporting what a pair imported to
/// yields a pair denoting the same columns — the logical type tree and the
/// element-wise values, null positions included, survive.
pub proof fn lemma_export_reverses_import(
    a: ArrayRecord,
    s: SchemaRecord,
    a2: ArrayRecord,
    s2: SchemaRecord,
)
    requires
        spec_import(a, s) is Some,
        export_describes(spec_import(a, s)->Some_0, a2, s2),
    ensures
        spec_import(a2, s2) == spec_import(a, s),
{
    lemma_imported_columns_wf(a, s);
    lemma_import_reverses_export(spec_import(a, s)->Some_0, a2, s2);
}

/// Exports a table as one composite interchange pair: the children are the
/// columns in order, and the pair imports back to exactly this table.
pub fn export_table(t: &Table) -> (r: (ArrayRecord, SchemaRecord))
    requires
        t.wf(),
    ensures
        export_describes(t@, r.0, r.1),
        spec_import(r.0, r.1) == Some(t@),
{
    let rows = t.height();
    let mut children: Vec<PrimArray> = Vec::new();
    let mut fields: Vec<SchemaField> = Vec::new();
    let mut i: usize = 0;
    while i < t.columns.len()
        invariant
            0 <= i <= t.columns@.len(),
            children@.len() == i,
            fields@.len() == i,
            forall|k: int|
                0 <= k < i ==> (#[trigger] spec_decode(children@[k], fields@[k])) == Some(t@[k]),
        decreases t.columns@.len() - i,
    {
        let (a, f) = export_column(&t.columns[i]);
        children.push(a);
        fields.push(f);
        i = i + 1;
    }
    let r = (
        ArrayRecord::Composite { rows, children },
        SchemaRecord::Composite { name: String::new(), children: fields },
    );
    proof {
        assert(export_describes(t@, r.0, r.1));
        lemma_import_reverses_export(t@, r.0, r.1);
    }
    r
}

/// Imports an interchange pair, validating it as [`spec_import`] lays out;
/// a rejected pair is a domain failure naming what was malformed.
pub fn import_table(a: ArrayRecord, s: SchemaRecord) -> (r: Result<Table, Failure>)
    ensures
        match r {
            Ok(t) => spec_import(a, s) == Some(t@) && t.wf(),
            Err(f) => spec_import(a, s) is None && f is Domain,
        },
{
    match (a, s) {
        (ArrayRecord::Prim(pa), SchemaRecord::Prim(f)) => {
            match decode_prim(&pa, &f) {
                Ok(c) => {
                    let t = Table { columns: vec![c] };
                    proof {
                        assert(t@ =~= seq![spec_decode(pa, f)->Some_0]);
                        assert(spec_import(ArrayRecord::Prim(pa), SchemaRecord::Prim(f))
                            == Some(t@));
                    }
                    Ok(t)
                },
                Err(e) => Err(e),
            }
        },
        (
            ArrayRecord::Composite { rows, children },
            SchemaRecord::Composite { name, children: fields },
        ) => import_composite(rows, children, name, fields),
        _ => Err(Failure::Domain(String::from_str("array and schema differ in shape"))),
    }
}

/// Imports the composite form: children become the named columns of a
/// table, in order.
fn import_composite(
    rows: usize,
    children: Vec<PrimArray>,
    name: String,
    fields: Vec<SchemaField>,
) -> (r: Result<Table, Failure>)
    ensures
        match r {
            Ok(t) => spec_import(
                ArrayRecord::Composite { rows, children },
                SchemaRecord::Composite { name, children: fields },
            ) == Some(t@) && t.wf(),
            Err(f) => spec_import(
                ArrayRecord::Composite { rows, children },
                SchemaRecord::Composite { name, children: fields },
            ) is None && f is Domain,
        },
{
    let ghost root_name = name;
    if children.len() != fields.len() {
        return Err(
            Failure::Domain(String::from_str("array and schema differ in child count")),
        );
    }
    let mut cols: Vec<Column> = Vec::new();
    let mut i: usize = 0;
    while i < children.len()
        invariant
            0 <= i <= children@.len(),
            children@.len() == fields@.len(),
            cols@.len() == i,
            forall|k: int|
                0 <= k < i ==> ((#[trigger] spec_decode(children@[k], fields@[k])) matches Some(c)
                    && cols@[k]@ == c),
            forall|k: int|
                0 <= k < i ==> buffer_len((#[trigger] children@[k]).buffer) == rows,
        decreases children@.len() - i,
    {
        let c = match decode_prim(&children[i], &fields[i]) {
            Ok(c) => c,
            Err(e) => {
                return Err(e);
            },
        };
        if c.len() != rows {
            proof {
                lemma_logical_len(children@[i as int]);
            }
            return Err(
                Failure::Domain(String::from_str("child length differs from row count")),
            );
        }
        proof {
            lemma_logical_len(children@[i as int]);
        }
        cols.push(c);
        i = i + 1;
    }
    let mut x: usize = 0;
    while x < cols.len()
        invariant
            0 <= x <= cols@.len(),
            cols@.len() == children@.len(),
            children@.len() == fields@.len(),
            forall|k: int|
                0 <= k < cols@.len() ==> ((#[trigger] spec_decode(children@[k], fields@[k]))
                    matches Some(c) && cols@[k]@ == c),
            forall|i: int, j: int|
                0 <= i < x && 0 <= j < cols@.len() && i != j ==> (#[trigger] cols@[i]@.name) != (
                #[trigger] cols@[j]@.name),
        decreases cols@.len() - x,
    {
        let mut y: usize = x + 1;
        while y < cols.len()
            invariant
                0 <= x < y <= cols@.len(),
                cols@.len() == children@.len(),
                children@.len() == fields@.len(),
                forall|k: int|
                    0 <= k < cols@.len() ==> ((#[trigger] spec_decode(children@[k], fields@[k]))
                        matches Some(c) && cols@[k]@ == c),
                forall|j: int| x < j < y ==> (#[trigger] cols@[j]@.name) != cols@[x as int]@.name,
            decreases cols@.len() - y,
        {
            if cols[x].name == cols[y].name {
                proof {
                    assert(spec_decode(children@[x as int], fields@[x as int]) matches Some(c)
                        && cols@[x as int]@ == c);
                    assert(spec_decode(children@[y as int], fields@[y as int]) matches Some(c)
                        && cols@[y as int]@ == c);
                    assert(fields@[x as int].name@ == fields@[y as int].name@);
                    assert(!fields_distinct(fields@));
                }
                return Err(Failure::Domain(String::from_str("duplicate field name")));
            }
            y = y + 1;
        }
        x = x + 1;
    }
    let t = Table { columns: cols };
    proof {
        assert forall|i: int, j: int|
            0 <= i < fields@.len() && 0 <= j < fields@.len() && i != j implies (
        #[trigger] fields@[i].name)@ != (#[trigger] fields@[j].name)@ by {
            let di = spec_decode(children@[i], fields@[i]);
            let dj = spec_decode(children@[j], fields@[j]);
            assert(di matches Some(c) && cols@[i]@ == c);
            assert(dj matches Some(c) && cols@[j]@ == c);
            assert(di->Some_0.name == fields@[i].name@);
            assert(dj->Some_0.name == fields@[j].name@);
            assert(cols@[i]@.name != cols@[j]@.name);
        }
        let cols_model = spec_import(
            ArrayRecord::Composite { rows, children },
            SchemaRecord::Composite { name: root_name, children: fields },
        )->Some_0;
        assert(t@ =~= cols_model);
        lemma_imported_columns_wf(
            ArrayRecord::Composite { rows, children },
            SchemaRecord::Composite { name: root_name, children: fields },
        );
    }
    Ok(t)
}

} // verus!
