//! Scalar extraction at the data-access edge: reading one cell of a table
//! out through the boundary.
//!
//! Values cross only when they fit exactly. A wide unsigned value that
//! exceeds the signed target range yields no value — never a wrapped or
//! truncated number, which would silently corrupt caller logic. A null cell,
//! a missing column, an out-of-range row, and a cell of the wrong kind all
//! yield no value as well; the caller distinguishes them no further.

use vstd::prelude::*;

use crate::column::{Column, ColumnModel, ColumnValues, Table, ValuesModel};
use crate::error_slot::msg_view;
use crate::render::{dec_int, dec_nat, render_bool, render_i64, render_u64};

verus! {

/// One cell of a column: a value of some primitive type, or a null.
#[derive(Debug)]
pub enum CellValue {
    Null,
    Bool(bool),
    Int32(i32),
    Int64(i64),
    UInt64(u64),
    Utf8(String),
}

/// The mathematical model of a cell.
pub enum CellModel {
    Null,
    Bool(bool),
    Int32(i32),
    Int64(i64),
    UInt64(u64),
    Utf8(Seq<char>),
}

impl View for CellValue {
    type V = CellModel;

    open spec fn view(&self) -> CellModel {
        match self {
            CellValue::Null => CellModel::Null,
            CellValue::Bool(b) => CellModel::Bool(*b),
            CellValue::Int32(v) => CellModel::Int32(*v),
            CellValue::Int64(v) => CellModel::Int64(*v),
            CellValue::UInt64(v) => CellModel::UInt64(*v),
            CellValue::Utf8(s) => CellModel::Utf8(s@),
        }
    }
}

impl ValuesModel {
    /// The cell at `i`: the entry's value, or a null.
    pub open spec fn spec_cell(&self, i: int) -> CellModel {
        match self {
            ValuesModel::Bool(s) => match s[i] {
                Some(b) => CellModel::Bool(b),
                None => CellModel::Null,
            },
            ValuesModel::Int32(s) => match s[i] {
                Some(v) => CellModel::Int32(v),
                None => CellModel::Null,
            },
            ValuesModel::Int64(s) => match s[i] {
                Some(v) => CellModel::Int64(v),
                None => CellModel::Null,
            },
            ValuesModel::UInt64(s) => match s[i] {
                Some(v) => CellModel::UInt64(v),
                None => CellModel::Null,
            },
            ValuesModel::Utf8(s) => match s[i] {
                Some(v) => CellModel::Utf8(v),
                None => CellModel::Null,
            },
        }
    }
}

/// The signed value a cell yields, if it fits exactly: signed entries pass
/// through, a narrower signed entry widens, and a wide unsigned entry is
/// rejected — not truncated — beyond the signed range. Nulls, truth values
/// and text yield nothing.
pub open spec fn spec_extract_i64(c: CellModel) -> Option<i64> {
    match c {
        CellModel::Int64(v) => Some(v),
        CellModel::Int32(v) => Some(v as i64),
        CellModel::UInt64(v) => if v <= i64::MAX as u64 {
            Some(v as i64)
        } else {
            None
        },
        _ => None,
    }
}

/// The text a cell yields: its own characters for a text entry, the decimal
/// rendering of a numeric entry, the usual words for a truth value, and
/// nothing for a null.
pub open spec fn spec_extract_string(c: CellModel) -> Option<Seq<char>> {
    match c {
        CellModel::Null => None,
        CellModel::Utf8(s) => Some(s),
        CellModel::Int32(v) => Some(dec_int(v as int)),
        CellModel::Int64(v) => Some(dec_int(v as int)),
        CellModel::UInt64(v) => Some(dec_nat(v as nat)),
        CellModel::Bool(b) => Some(if b {
            "true"@
        } else {
            "false"@
        }),
    }
}

/// Extracts a signed value from a cell exactly, per [`spec_extract_i64`].
pub fn extract_i64(c: &CellValue) -> (r: Option<i64>)
    ensures
        r == spec_extract_i64(c@),
{
    match c {
        CellValue::Int64(v) => Some(*v),
        CellValue::Int32(v) => Some(*v as i64),
        CellValue::UInt64(v) => {
            if *v <= (i64::MAX as u64) {
                Some(*v as i64)
            } else {
                None
            }
        },
        _ => None,
    }
}

/// Extracts a cell's text, per [`spec_extract_string`].
pub fn extract_string(c: &CellValue) -> (r: Option<String>)
    ensures
        msg_view(r) == spec_extract_string(c@),
{
    match c {
        CellValue::Null => None,
        CellValue::Utf8(s) => Some(s.clone()),
        CellValue::Int32(v) => Some(render_i64(*v as i64)),
        CellValue::Int64(v) => Some(render_i64(*v)),
        CellValue::UInt64(v) => Some(render_u64(*v)),
        CellValue::Bool(b) => Some(render_bool(*b)),
    }
}

impl Column {
    /// Reads the cell at `row`, or nothing when `row` is out of range.
    pub fn cell(&self, row: usize) -> (r: Option<CellValue>)
        ensures
            match r {
                Some(c) => row < self@.values.len() && c@ == self@.values.spec_cell(row as int),
                None => row >= self@.values.len(),
            },
    {
        match &self.values {
            ColumnValues::Bool(v) => {
                if row < v.len() {
                    match v[row] {
                        Some(b) => Some(CellValue::Bool(b)),
                        None => Some(CellValue::Null),
                    }
                } else {
                    None
                }
            },
            ColumnValues::Int32(v) => {
                if row < v.len() {
                    match v[row] {
                        Some(x) => Some(CellValue::Int32(x)),
                        None => Some(CellValue::Null),
                    }
                } else {
                    None
                }
            },
            ColumnValues::Int64(v) => {
                if row < v.len() {
                    match v[row] {
                        Some(x) => Some(CellValue::Int64(x)),
                        None => Some(CellValue::Null),
                    }
                } else {
                    None
                }
            },
            ColumnValues::UInt64(v) => {
                if row < v.len() {
                    match v[row] {
                        Some(x) => Some(CellValue::UInt64(x)),
                        None => Some(CellValue::Null),
                    }
                } else {
                    None
                }
            },
            ColumnValues::Utf8(v) => {
                if row < v.len() {
                    match &v[row] {
                        Some(x) => Some(CellValue::Utf8(x.clone())),
                        None => Some(CellValue::Null),
                    }
                } else {
                    None
                }
            },
        }
    }
}

/// What reading a cell of a table yields: the cell of the named column at
/// the given row, nothing when the column is missing or the row is out of
/// range.
pub open spec fn spec_table_cell(cols: Seq<ColumnModel>, name: Seq<char>, row: int) -> Option<
    CellModel,
> {
    if exists|i: int| 0 <= i < cols.len() && (#[trigger] cols[i]).name == name {
        let i = choose|i: int| 0 <= i < cols.len() && (#[trigger] cols[i]).name == name;
        if 0 <= row < cols[i].values.len() {
            Some(cols[i].values.spec_cell(row))
        } else {
            None
        }
    } else {
        None
    }
}

impl Table {
    /// Reads one cell as a signed value, exactly: see [`spec_extract_i64`].
    pub fn get_i64(&self, name: &String, row: usize) -> (r: Option<i64>)
        requires
            self.wf(),
        ensures
            r == (match spec_table_cell(self@, name@, row as int) {
                Some(c) => spec_extract_i64(c),
                None => None::<i64>,
            }),
    {
        match self.get_column(name) {
            Some(col) => {
                match col.cell(row) {
                    Some(c) => extract_i64(&c),
                    None => None,
                }
            },
            None => None,
        }
    }

    /// Reads one cell as text: see [`spec_extract_string`].
    pub fn get_string(&self, name: &String, row: usize) -> (r: Option<String>)
        requires
            self.wf(),
        ensures
            msg_view(r) == (match spec_table_cell(self@, name@, row as int) {
                Some(c) => spec_extract_string(c),
                None => None::<Seq<char>>,
            }),
    {
        match self.get_column(name) {
            Some(col) => {
                match col.cell(row) {
                    Some(c) => extract_string(&c),
                    None => None,
                }
            },
            None => None,
        }
    }
}

} // verus!
