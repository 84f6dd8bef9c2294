//! The logical side of the columnar data model: typed columns of optional
//! values, and tables of equally long, uniquely named columns.
//!
//! A column is the value a handle owns once data has crossed the boundary;
//! its physical interchange form (buffers, validity bitmap, schema node)
//! lives in [`crate::bridge`]. Values are optional throughout: a missing
//! entry is a null, and null positions are part of a column's identity.

use vstd::prelude::*;

use crate::barrier::Failure;

verus! {

/// The primitive type of a column's entries.
#[derive(Clone, Copy, PartialEq, Eq, Structural, Debug)]
pub enum PrimTag {
    Bool,
    Int32,
    Int64,
    UInt64,
    Utf8,
}

/// A column's entries: one vector per supported primitive type, with `None`
/// marking a null.
#[derive(Debug)]
pub enum ColumnValues {
    Bool(Vec<Option<bool>>),
    Int32(Vec<Option<i32>>),
    Int64(Vec<Option<i64>>),
    UInt64(Vec<Option<u64>>),
    Utf8(Vec<Option<String>>),
}

/// The mathematical model of a column's entries.
#[verifier::ext_equal]
pub enum ValuesModel {
    Bool(Seq<Option<bool>>),
    Int32(Seq<Option<i32>>),
    Int64(Seq<Option<i64>>),
    UInt64(Seq<Option<u64>>),
    Utf8(Seq<Option<Seq<char>>>),
}

impl ValuesModel {
    /// The number of entries, nulls included.
    pub open spec fn len(&self) -> nat {
        match self {
            ValuesModel::Bool(s) => s.len(),
            ValuesModel::Int32(s) => s.len(),
            ValuesModel::Int64(s) => s.len(),
            ValuesModel::UInt64(s) => s.len(),
            ValuesModel::Utf8(s) => s.len(),
        }
    }

    /// The primitive type of the entries.
    pub open spec fn tag(&self) -> PrimTag {
        match self {
            ValuesModel::Bool(_) => PrimTag::Bool,
            ValuesModel::Int32(_) => PrimTag::Int32,
            ValuesModel::Int64(_) => PrimTag::Int64,
            ValuesModel::UInt64(_) => PrimTag::UInt64,
            ValuesModel::Utf8(_) => PrimTag::Utf8,
        }
    }

    /// Whether the entry at `i` is null.
    pub open spec fn null_at(&self, i: int) -> bool {
        match self {
            ValuesModel::Bool(s) => s[i] is None,
            ValuesModel::Int32(s) => s[i] is None,
            ValuesModel::Int64(s) => s[i] is None,
            ValuesModel::UInt64(s) => s[i] is None,
            ValuesModel::Utf8(s) => s[i] is None,
        }
    }
}

impl View for ColumnValues {
    type V = ValuesModel;

    open spec fn view(&self) -> ValuesModel {
        match self {
            ColumnValues::Bool(v) => ValuesModel::Bool(v.deep_view()),
            ColumnValues::Int32(v) => ValuesModel::Int32(v.deep_view()),
            ColumnValues::Int64(v) => ValuesModel::Int64(v.deep_view()),
            ColumnValues::UInt64(v) => ValuesModel::UInt64(v.deep_view()),
            ColumnValues::Utf8(v) => ValuesModel::Utf8(v.deep_view()),
        }
    }
}

impl ColumnValues {
    /// The number of entries, nulls included.
    pub fn len(&self) -> (n: usize)
        ensures
            n == self@.len(),
    {
        match self {
            ColumnValues::Bool(v) => v.len(),
            ColumnValues::Int32(v) => v.len(),
            ColumnValues::Int64(v) => v.len(),
            ColumnValues::UInt64(v) => v.len(),
            ColumnValues::Utf8(v) => v.len(),
        }
    }

    /// The primitive type of the entries.
    pub fn tag(&self) -> (t: PrimTag)
        ensures
            t == self@.tag(),
    {
        match self {
            ColumnValues::Bool(_) => PrimTag::Bool,
            ColumnValues::Int32(_) => PrimTag::Int32,
            ColumnValues::Int64(_) => PrimTag::Int64,
            ColumnValues::UInt64(_) => PrimTag::UInt64,
            ColumnValues::Utf8(_) => PrimTag::Utf8,
        }
    }
}

/// One named column.
#[derive(Debug)]
pub struct Column {
    pub name: String,
    pub values: ColumnValues,
}

/// The mathematical model of a column: its name and its entries.
#[verifier::ext_equal]
pub struct ColumnModel {
    pub name: Seq<char>,
    pub values: ValuesModel,
}

impl View for Column {
    type V = ColumnModel;

    open spec fn view(&self) -> ColumnModel {
        ColumnModel { name: self.name@, values: self.values@ }
    }
}

impl Column {
    /// Builds a column from a name and its entries.
    pub fn new(name: String, values: ColumnValues) -> (c: Self)
        ensures
            c@ == (ColumnModel { name: name@, values: values@ }),
    {
        Column { name, values }
    }

    /// The number of entries.
    pub fn len(&self) -> (n: usize)
        ensures
            n == self@.values.len(),
    {
        self.values.len()
    }

    /// Replaces the column's name.
    pub fn rename(&mut self, name: String)
        ensures
            final(self)@ == (ColumnModel { name: name@, values: old(self)@.values }),
    {
        self.name = name;
    }
}

/// Whether a sequence of columns forms a table: every column has the same
/// number of entries, and no two columns share a name.
pub open spec fn columns_wf(cols: Seq<ColumnModel>) -> bool {
    &&& forall|i: int|
        0 <= i < cols.len() ==> (#[trigger] cols[i].values.len()) == cols[0].values.len()
    &&& forall|i: int, j: int|
        0 <= i < cols.len() && 0 <= j < cols.len() && i != j ==> (#[trigger] cols[i].name)
            != (#[trigger] cols[j].name)
}

/// A table: columns of equal length with pairwise distinct names.
///
/// The view is the sequence of column models; [`Table::wf`] is the invariant
/// the constructor establishes and every operation preserves.
#[derive(Debug)]
pub struct Table {
    pub columns: Vec<Column>,
}

impl View for Table {
    type V = Seq<ColumnModel>;

    open spec fn view(&self) -> Seq<ColumnModel> {
        Seq::new(self.columns@.len(), |i: int| self.columns@[i]@)
    }
}

impl Table {
    /// The table invariant: see [`columns_wf`].
    pub open spec fn wf(&self) -> bool {
        columns_wf(self@)
    }

    /// The number of rows: the shared length of the columns, zero for a
    /// table of no columns.
    pub open spec fn spec_height(&self) -> nat {
        if self@.len() == 0 {
            0
        } else {
            self@[0].values.len()
        }
    }

    /// A table of no columns and no rows.
    pub fn empty() -> (t: Self)
        ensures
            t@ == Seq::<ColumnModel>::empty(),
            t.wf(),
    {
        let t = Table { columns: Vec::new() };
        proof {
            assert(t@ =~= Seq::<ColumnModel>::empty());
        }
        t
    }

    /// Builds a table, rejecting columns of unequal length and duplicated
    /// names; exactly the inputs satisfying [`columns_wf`] are accepted.
    pub fn new(columns: Vec<Column>) -> (r: Result<Self, Failure>)
        ensures
            match r {
                Ok(t) => t@ == Seq::new(columns@.len(), |i: int| columns@[i]@) && t.wf(),
                Err(f) => !columns_wf(Seq::new(columns@.len(), |i: int| columns@[i]@)) && f
                    is Domain,
            },
    {
        let ghost model = Seq::new(columns@.len(), |i: int| columns@[i]@);
        if columns.len() > 0 {
            let height = columns[0].len();
            let mut i: usize = 0;
            while i < columns.len()
                invariant
                    0 <= i <= columns@.len(),
                    height == model[0].values.len(),
                    model == Seq::new(columns@.len(), |k: int| columns@[k]@),
                    forall|k: int| 0 <= k < i ==> (#[trigger] model[k].values.len()) == height,
                decreases columns@.len() - i,
            {
                if columns[i].len() != height {
                    proof {
                        assert(model[i as int].values.len() != model[0].values.len());
                        assert(!columns_wf(model));
                    }
                    return Err(
                        Failure::Domain(String::from_str("columns differ in length")),
                    );
                }
                i = i + 1;
            }
            let mut a: usize = 0;
            while a < columns.len()
                invariant
                    0 <= a <= columns@.len(),
                    model == Seq::new(columns@.len(), |k: int| columns@[k]@),
                    forall|i: int, j: int|
                        0 <= i < a && 0 <= j < columns@.len() && i != j ==> (
                        #[trigger] model[i].name) != (#[trigger] model[j].name),
                decreases columns@.len() - a,
            {
                let mut b: usize = a + 1;
                while b < columns.len()
                    invariant
                        0 <= a < b <= columns@.len(),
                        model == Seq::new(columns@.len(), |k: int| columns@[k]@),
                        forall|j: int|
                            a < j < b ==> (#[trigger] model[j].name) != model[a as int].name,
                    decreases columns@.len() - b,
                {
                    if columns[a].name == columns[b].name {
                        proof {
                            assert(model[a as int].name == model[b as int].name);
                            assert(!columns_wf(model));
                        }
                        return Err(
                            Failure::Domain(String::from_str("duplicate column name")),
                        );
                    }
                    b = b + 1;
                }
                a = a + 1;
            }
        }
        let t = Table { columns };
        proof {
            assert(t@ =~= model);
        }
        Ok(t)
    }

    /// The number of rows.
    pub fn height(&self) -> (n: usize)
        ensures
            n == self.spec_height(),
    {
        if self.columns.len() == 0 {
            0
        } else {
            self.columns[0].len()
        }
    }

    /// The number of columns.
    pub fn width(&self) -> (n: usize)
        ensures
            n == self@.len(),
    {
        self.columns.len()
    }

    /// The name of the column at `index`, or nothing when `index` is out of
    /// range.
    pub fn get_column_name(&self, index: usize) -> (r: Option<&String>)
        ensures
            match r {
                Some(name) => index < self@.len() && name@ == self@[index as int].name,
                None => index >= self@.len(),
            },
    {
        if index < self.columns.len() {
            Some(&self.columns[index].name)
        } else {
            None
        }
    }

    /// The column at `index`, or nothing when `index` is out of range.
    pub fn get_column_at(&self, index: usize) -> (r: Option<&Column>)
        ensures
            match r {
                Some(c) => index < self@.len() && c@ == self@[index as int],
                None => index >= self@.len(),
            },
    {
        if index < self.columns.len() {
            Some(&self.columns[index])
        } else {
            None
        }
    }

    /// The column named `name`, or nothing when no column carries that name.
    pub fn get_column(&self, name: &String) -> (r: Option<&Column>)
        ensures
            match r {
                Some(c) => exists|i: int|
                    0 <= i < self@.len() && (#[trigger] self@[i]).name == name@ && c@ == self@[i],
                None => forall|i: int|
                    0 <= i < self@.len() ==> (#[trigger] self@[i]).name != name@,
            },
    {
        let mut i: usize = 0;
        while i < self.columns.len()
            invariant
                0 <= i <= self@.len(),
                forall|j: int| 0 <= j < i ==> (#[trigger] self@[j]).name != name@,
            decreases self@.len() - i,
        {
            if self.columns[i].name == *name {
                proof {
                    let wi = i as int;
                    assert(0 <= wi < self@.len() && self@[wi].name == name@);
                }
                return Some(&self.columns[i]);
            }
            i = i + 1;
        }
        None
    }
}

/// Copies optional entries of a type that copies.
fn dup_opt<T: Copy>(v: &Vec<Option<T>>) -> (r: Vec<Option<T>>)
    ensures
        r@ == v@,
{
    let mut out: Vec<Option<T>> = Vec::new();
    let mut i: usize = 0;
    while i < v.len()
        invariant
            0 <= i <= v@.len(),
            out@ == v@.take(i as int),
        decreases v@.len() - i,
    {
        out.push(v[i]);
        proof {
            assert(out@ =~= v@.take(i as int + 1));
        }
        i = i + 1;
    }
    proof {
        assert(v@.take(v@.len() as int) =~= v@);
    }
    out
}

/// Copies optional strings.
fn dup_opt_str(v: &Vec<Option<String>>) -> (r: Vec<Option<String>>)
    ensures
        r.deep_view() == v.deep_view(),
{
    let mut out: Vec<Option<String>> = Vec::new();
    let mut i: usize = 0;
    while i < v.len()
        invariant
            0 <= i <= v@.len(),
            out@.len() == i,
            forall|k: int| 0 <= k < i ==> (#[trigger] out@[k]).deep_view() == v@[k].deep_view(),
        decreases v@.len() - i,
    {
        match &v[i] {
            Some(x) => out.push(Some(x.clone())),
            None => out.push(None),
        }
        i = i + 1;
    }
    proof {
        assert(out.deep_view() =~= v.deep_view());
    }
    out
}

impl ColumnValues {
    /// An independent copy of the entries, equal to the original; the
    /// boundary's clone operations produce a new handle over such a copy,
    /// leaving the original handle valid.
    pub fn duplicate(&self) -> (r: Self)
        ensures
            r@ == self@,
    {
        match self {
            ColumnValues::Bool(v) => ColumnValues::Bool(dup_opt(v)),
            ColumnValues::Int32(v) => ColumnValues::Int32(dup_opt(v)),
            ColumnValues::Int64(v) => ColumnValues::Int64(dup_opt(v)),
            ColumnValues::UInt64(v) => ColumnValues::UInt64(dup_opt(v)),
            ColumnValues::Utf8(v) => ColumnValues::Utf8(dup_opt_str(v)),
        }
    }
}

impl Column {
    /// An independent copy of the column, equal to the original.
    pub fn duplicate(&self) -> (r: Self)
        ensures
            r@ == self@,
    {
        Column { name: self.name.clone(), values: self.values.duplicate() }
    }
}

impl Table {
    /// An independent copy of the table, equal to the original.
    pub fn duplicate(&self) -> (r: Self)
        ensures
            r@ == self@,
            self.wf() ==> r.wf(),
    {
        let mut cols: Vec<Column> = Vec::new();
        let mut i: usize = 0;
        while i < self.columns.len()
            invariant
                0 <= i <= self.columns@.len(),
                cols@.len() == i,
                forall|k: int| 0 <= k < i ==> (#[trigger] cols@[k])@ == self@[k],
            decreases self.columns@.len() - i,
        {
            cols.push(self.columns[i].duplicate());
            i = i + 1;
        }
        let t = Table { columns: cols };
        proof {
            assert(t@ =~= self@);
        }
        t
    }
}

} // verus!
