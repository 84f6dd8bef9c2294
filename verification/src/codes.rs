//! The small decision maps of the call surface: numeric codes and keyword
//! strings arriving from the host become the engine's enumerated choices
//! here, and a fixed window size is parsed from its textual form.

use vstd::prelude::*;

use crate::barrier::Failure;
use vstd::string::StringSliceAdditionalSpecFns;

verus! {

/// How two tables are joined.
#[derive(Clone, Copy, PartialEq, Eq, Structural, Debug)]
pub enum JoinKind {
    Inner,
    Left,
    Full,
    Cross,
    Semi,
    Anti,
}

/// The join a numeric code selects; an unknown code falls back to an inner
/// join.
pub open spec fn spec_jointype(code: i32) -> JoinKind {
    if code == 1 {
        JoinKind::Left
    } else if code == 2 {
        JoinKind::Full
    } else if code == 3 {
        JoinKind::Cross
    } else if code == 4 {
        JoinKind::Semi
    } else if code == 5 {
        JoinKind::Anti
    } else {
        JoinKind::Inner
    }
}

/// Maps a join code, per [`spec_jointype`].
pub fn map_jointype(code: i32) -> (k: JoinKind)
    ensures
        k == spec_jointype(code),
{
    match code {
        1 => JoinKind::Left,
        2 => JoinKind::Full,
        3 => JoinKind::Cross,
        4 => JoinKind::Semi,
        5 => JoinKind::Anti,
        _ => JoinKind::Inner,
    }
}

/// Which ends of a rolling window are closed.
#[derive(Clone, Copy, PartialEq, Eq, Structural, Debug)]
pub enum ClosedWindowKind {
    Left,
    Right,
    Both,
    Neither,
}

/// The window closure a keyword selects; an unknown keyword falls back to a
/// left-closed window.
pub open spec fn spec_closed_window(s: Seq<char>) -> ClosedWindowKind {
    if s == "right"@ {
        ClosedWindowKind::Right
    } else if s == "both"@ {
        ClosedWindowKind::Both
    } else if s == "none"@ {
        ClosedWindowKind::Neither
    } else {
        ClosedWindowKind::Left
    }
}

/// Whether two pieces of text hold the same characters.
fn str_eq(a: &str, b: &str) -> (r: bool)
    ensures
        r == (a@ == b@),
{
    let sa = String::from_str(a);
    let sb = String::from_str(b);
    sa == sb
}

/// Maps a window-closure keyword, per [`spec_closed_window`].
pub fn map_closed_window(s: &str) -> (k: ClosedWindowKind)
    ensures
        k == spec_closed_window(s@),
{
    if str_eq(s, "right") {
        ClosedWindowKind::Right
    } else if str_eq(s, "both") {
        ClosedWindowKind::Both
    } else if str_eq(s, "none") {
        ClosedWindowKind::Neither
    } else {
        ClosedWindowKind::Left
    }
}

/// The aggregation applied to each pivot cell group.
#[derive(Clone, Copy, PartialEq, Eq, Structural, Debug)]
pub enum AggKind {
    First,
    Sum,
    Min,
    Max,
    Mean,
    Median,
    Count,
    Len,
    Last,
}

/// The aggregation a numeric code selects; an unknown code falls back to
/// taking the first value.
pub open spec fn spec_pivot_agg(code: i32) -> AggKind {
    if code == 1 {
        AggKind::Sum
    } else if code == 2 {
        AggKind::Min
    } else if code == 3 {
        AggKind::Max
    } else if code == 4 {
        AggKind::Mean
    } else if code == 5 {
        AggKind::Median
    } else if code == 6 {
        AggKind::Count
    } else if code == 7 {
        AggKind::Len
    } else if code == 8 {
        AggKind::Last
    } else {
        AggKind::First
    }
}

/// Maps a pivot aggregation code, per [`spec_pivot_agg`].
pub fn map_pivot_agg(code: i32) -> (k: AggKind)
    ensures
        k == spec_pivot_agg(code),
{
    match code {
        1 => AggKind::Sum,
        2 => AggKind::Min,
        3 => AggKind::Max,
        4 => AggKind::Mean,
        5 => AggKind::Median,
        6 => AggKind::Count,
        7 => AggKind::Len,
        8 => AggKind::Last,
        _ => AggKind::First,
    }
}

/// How a list of tables is concatenated.
#[derive(Clone, Copy, PartialEq, Eq, Structural, Debug)]
pub enum ConcatKind {
    Vertical,
    Horizontal,
    Diagonal,
}

/// Maps a concatenation code: exactly the codes zero, one and two name a
/// strategy, and any other code is a domain failure.
pub fn map_concat_strategy(code: i32) -> (r: Result<ConcatKind, Failure>)
    ensures
        match r {
            Ok(k) => (code == 0 ==> k == ConcatKind::Vertical) && (code == 1 ==> k
                == ConcatKind::Horizontal) && (code == 2 ==> k == ConcatKind::Diagonal) && 0 <= code
                <= 2,
            Err(f) => !(0 <= code <= 2) && f is Domain,
        },
{
    match code {
        0 => Ok(ConcatKind::Vertical),
        1 => Ok(ConcatKind::Horizontal),
        2 => Ok(ConcatKind::Diagonal),
        _ => Err(Failure::Domain(String::from_str("Invalid concat strategy"))),
    }
}

/// The match strategy of an as-of join.
#[derive(Clone, Copy, PartialEq, Eq, Structural, Debug)]
pub enum AsofStrategyKind {
    Backward,
    Forward,
    Nearest,
}

/// The as-of strategy a keyword selects; an unknown keyword falls back to a
/// backward search.
pub open spec fn spec_asof_strategy(s: Seq<char>) -> AsofStrategyKind {
    if s == "forward"@ {
        AsofStrategyKind::Forward
    } else if s == "nearest"@ {
        AsofStrategyKind::Nearest
    } else {
        AsofStrategyKind::Backward
    }
}

/// Maps an as-of strategy keyword, per [`spec_asof_strategy`].
pub fn map_asof_strategy(s: &str) -> (k: AsofStrategyKind)
    ensures
        k == spec_asof_strategy(s@),
{
    if str_eq(s, "forward") {
        AsofStrategyKind::Forward
    } else if str_eq(s, "nearest") {
        AsofStrategyKind::Nearest
    } else {
        AsofStrategyKind::Backward
    }
}

/// A fill limit arriving as a plain number: zero asks for no limit.
pub fn map_fill_limit(limit: u32) -> (r: Option<u32>)
    ensures
        limit == 0 ==> r is None,
        limit != 0 ==> r == Some(limit),
{
    if limit == 0 {
        None
    } else {
        Some(limit)
    }
}

/// The logical type a host-side code names when it builds a type
/// descriptor.
#[derive(Clone, Copy, PartialEq, Eq, Structural, Debug)]
pub enum TypeCode {
    Unknown,
    Bool,
    Int8,
    Int16,
    Int32,
    Int64,
    UInt8,
    UInt16,
    UInt32,
    UInt64,
    Float32,
    Float64,
    Text,
    Date,
    Datetime,
    Time,
    Duration,
    Binary,
}

/// The type a numeric code names; an unknown code names the unknown type.
pub open spec fn spec_primitive_type(code: i32) -> TypeCode {
    if code == 1 {
        TypeCode::Bool
    } else if code == 2 {
        TypeCode::Int8
    } else if code == 3 {
        TypeCode::Int16
    } else if code == 4 {
        TypeCode::Int32
    } else if code == 5 {
        TypeCode::Int64
    } else if code == 6 {
        TypeCode::UInt8
    } else if code == 7 {
        TypeCode::UInt16
    } else if code == 8 {
        TypeCode::UInt32
    } else if code == 9 {
        TypeCode::UInt64
    } else if code == 10 {
        TypeCode::Float32
    } else if code == 11 {
        TypeCode::Float64
    } else if code == 12 {
        TypeCode::Text
    } else if code == 13 {
        TypeCode::Date
    } else if code == 14 {
        TypeCode::Datetime
    } else if code == 15 {
        TypeCode::Time
    } else if code == 16 {
        TypeCode::Duration
    } else if code == 17 {
        TypeCode::Binary
    } else {
        TypeCode::Unknown
    }
}

/// Maps a primitive type code, per [`spec_primitive_type`].
pub fn map_primitive_type(code: i32) -> (t: TypeCode)
    ensures
        t == spec_primitive_type(code),
{
    match code {
        1 => TypeCode::Bool,
        2 => TypeCode::Int8,
        3 => TypeCode::Int16,
        4 => TypeCode::Int32,
        5 => TypeCode::Int64,
        6 => TypeCode::UInt8,
        7 => TypeCode::UInt16,
        8 => TypeCode::UInt32,
        9 => TypeCode::UInt64,
        10 => TypeCode::Float32,
        11 => TypeCode::Float64,
        12 => TypeCode::Text,
        13 => TypeCode::Date,
        14 => TypeCode::Datetime,
        15 => TypeCode::Time,
        16 => TypeCode::Duration,
        17 => TypeCode::Binary,
        _ => TypeCode::Unknown,
    }
}

/// A decimal type descriptor's shape: a precision of zero asks for an
/// inferred precision.
pub fn map_decimal_precision(precision: usize) -> (r: Option<usize>)
    ensures
        precision == 0 ==> r is None,
        precision != 0 ==> r == Some(precision),
{
    if precision == 0 {
        None
    } else {
        Some(precision)
    }
}

/// An ASCII space, tab, or line break.
pub open spec fn is_ascii_space(b: u8) -> bool {
    b == 32 || b == 9 || b == 10 || b == 13
}

/// An ASCII decimal digit.
pub open spec fn is_ascii_digit(b: u8) -> bool {
    48 <= b <= 57
}

/// The value of one digit byte; anything else counts as zero.
pub open spec fn digit_of(b: u8) -> nat {
    if is_ascii_digit(b) {
        (b - 48) as nat
    } else {
        0
    }
}

/// The number a run of digit bytes denotes, most significant first.
pub open spec fn digits_val(b: Seq<u8>) -> nat
    decreases b.len(),
{
    if b.len() == 0 {
        0
    } else {
        digits_val(b.drop_last()) * 10 + digit_of(b.last())
    }
}

/// Whether every byte is a decimal digit.
pub open spec fn all_digits(b: Seq<u8>) -> bool {
    forall|i: int| 0 <= i < b.len() ==> is_ascii_digit(#[trigger] b[i])
}

/// The bytes with leading ASCII whitespace removed.
pub open spec fn trim_front(b: Seq<u8>) -> Seq<u8>
    decreases b.len(),
{
    if b.len() > 0 && is_ascii_space(b[0]) {
        trim_front(b.drop_first())
    } else {
        b
    }
}

/// The bytes with trailing ASCII whitespace removed.
pub open spec fn trim_back(b: Seq<u8>) -> Seq<u8>
    decreases b.len(),
{
    if b.len() > 0 && is_ascii_space(b.last()) {
        trim_back(b.drop_last())
    } else {
        b
    }
}

/// The bytes with any trailing index markers (the letter `i`) removed.
pub open spec fn strip_index_marks(b: Seq<u8>) -> Seq<u8>
    decreases b.len(),
{
    if b.len() > 0 && b.last() == 'i' as u8 {
        strip_index_marks(b.drop_last())
    } else {
        b
    }
}

/// The digit run a textual window size should reduce to: whitespace trimmed
/// from both ends, then trailing index markers removed.
pub open spec fn window_digits(b: Seq<u8>) -> Seq<u8> {
    strip_index_marks(trim_back(trim_front(b)))
}

/// What a textual fixed window size parses to: the denoted number, provided
/// the remaining run is non-empty, is all digits, and fits the machine —
/// anything else (a time span such as a count of days, in particular) is
/// rejected.
pub open spec fn spec_parse_window_size(b: Seq<u8>) -> Option<usize> {
    let d = window_digits(b);
    if d.len() > 0 && all_digits(d) && digits_val(d) <= usize::MAX as nat {
        Some(digits_val(d) as usize)
    } else {
        None
    }
}

/// A digit run denotes at least what any of its prefixes denotes.
proof fn lemma_digits_val_prefix_le(b: Seq<u8>, j: int)
    requires
        0 <= j <= b.len(),
    ensures
        digits_val(b.take(j)) <= digits_val(b),
    decreases b.len() - j,
{
    if j < b.len() {
        assert(b.take(j + 1).drop_last() =~= b.take(j));
        assert(b.take(j + 1).last() == b[j]);
        assert(digits_val(b.take(j)) <= digits_val(b.take(j + 1)));
        lemma_digits_val_prefix_le(b, j + 1);
    } else {
        assert(b.take(j) =~= b);
    }
}

/// Parses a fixed window size, per [`spec_parse_window_size`]: the number of
/// rows, written in digits with optional surrounding whitespace and an
/// optional trailing index marker.
pub fn parse_window_size(s: &str) -> (r: Option<usize>)
    ensures
        r == spec_parse_window_size(s.spec_bytes()),
{
    let b = s.as_bytes();
    let ghost whole = s.spec_bytes();
    proof {
        assert(whole.subrange(0, whole.len() as int) =~= whole);
    }
    let mut lo: usize = 0;
    while lo < b.len() && (b[lo] == 32 || b[lo] == 9 || b[lo] == 10 || b[lo] == 13)
        invariant
            0 <= lo <= whole.len(),
            b@ == whole,
            trim_front(whole) == trim_front(whole.subrange(lo as int, whole.len() as int)),
        decreases whole.len() - lo,
    {
        proof {
            assert(whole.subrange(lo as int, whole.len() as int).drop_first() =~= whole.subrange(
                lo as int + 1,
                whole.len() as int,
            ));
        }
        lo = lo + 1;
    }
    proof {
        assert(trim_front(whole) =~= whole.subrange(lo as int, whole.len() as int));
    }
    let mut hi: usize = b.len();
    while hi > lo && (b[hi - 1] == 32 || b[hi - 1] == 9 || b[hi - 1] == 10 || b[hi - 1] == 13)
        invariant
            lo <= hi <= whole.len(),
            b@ == whole,
            trim_front(whole) == whole.subrange(lo as int, whole.len() as int),
            trim_back(trim_front(whole)) == trim_back(whole.subrange(lo as int, hi as int)),
        decreases hi,
    {
        proof {
            assert(whole.subrange(lo as int, hi as int).drop_last() =~= whole.subrange(
                lo as int,
                hi as int - 1,
            ));
        }
        hi = hi - 1;
    }
    proof {
        assert(trim_back(trim_front(whole)) =~= whole.subrange(lo as int, hi as int));
    }
    while hi > lo && b[hi - 1] == 105
        invariant
            lo <= hi <= whole.len(),
            b@ == whole,
            window_digits(whole) == strip_index_marks(whole.subrange(lo as int, hi as int)),
        decreases hi,
    {
        proof {
            assert(whole.subrange(lo as int, hi as int).drop_last() =~= whole.subrange(
                lo as int,
                hi as int - 1,
            ));
        }
        hi = hi - 1;
    }
    proof {
        assert(window_digits(whole) =~= whole.subrange(lo as int, hi as int));
    }
    let ghost core = window_digits(whole);
    if hi == lo {
        return None;
    }
    let mut acc: usize = 0;
    let mut j: usize = lo;
    while j < hi
        invariant
            lo <= j <= hi <= whole.len(),
            b@ == whole,
            whole == s.spec_bytes(),
            core == window_digits(whole),
            core == whole.subrange(lo as int, hi as int),
            core.len() == hi - lo,
            all_digits(core.take(j as int - lo as int)),
            acc == digits_val(core.take(j as int - lo as int)),
        decreases hi - j,
    {
        let c = b[j];
        proof {
            assert(core[j as int - lo as int] == whole[j as int]);
        }
        if c < 48 || c > 57 {
            proof {
                assert(!is_ascii_digit(core[j as int - lo as int]));
                assert(!all_digits(core));
            }
            return None;
        }
        let d = (c - 48) as usize;
        let ghost k = j as int - lo as int;
        proof {
            assert(core.take(k + 1).drop_last() =~= core.take(k));
            assert(core.take(k + 1).last() == core[k]);
            assert(digits_val(core.take(k + 1)) == acc * 10 + digit_of(core[k]));
        }
        if acc > (usize::MAX - d) / 10 {
            proof {
                assert(acc * 10 + d > usize::MAX) by (nonlinear_arith)
                    requires
                        acc > (usize::MAX - d) / 10,
                        d <= 9,
                        acc >= 0,
                ;
                lemma_digits_val_prefix_le(core, k + 1);
                assert(digits_val(core) > usize::MAX as nat);
            }
            return None;
        }
        proof {
            assert(acc * 10 + d <= usize::MAX) by (nonlinear_arith)
                requires
                    acc <= (usize::MAX - d) / 10,
                    d <= 9,
                    acc >= 0,
            ;
        }
        acc = acc * 10 + d;
        j = j + 1;
    }
    proof {
        assert(core.take(hi as int - lo as int) =~= core);
    }
    Some(acc)
}

} // verus!
