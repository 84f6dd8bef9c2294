//! Verified rendering of scalars to text, as the boundary's string accessor
//! hands values back to the host.

use vstd::prelude::*;

verus! {

/// The character for one decimal digit.
pub open spec fn digit_char(d: nat) -> char {
    if d == 0 {
        '0'
    } else if d == 1 {
        '1'
    } else if d == 2 {
        '2'
    } else if d == 3 {
        '3'
    } else if d == 4 {
        '4'
    } else if d == 5 {
        '5'
    } else if d == 6 {
        '6'
    } else if d == 7 {
        '7'
    } else if d == 8 {
        '8'
    } else {
        '9'
    }
}

/// The decimal rendering of a natural number, most significant digit first.
pub open spec fn dec_nat(n: nat) -> Seq<char>
    decreases n,
{
    if n < 10 {
        seq![digit_char(n)]
    } else {
        dec_nat(n / 10).push(digit_char(n % 10))
    }
}

/// The decimal rendering of an integer: a leading minus sign for a negative
/// value.
pub open spec fn dec_int(v: int) -> Seq<char> {
    if v < 0 {
        seq!['-'] + dec_nat((-v) as nat)
    } else {
        dec_nat(v as nat)
    }
}

/// The text for one digit.
fn digit_str(d: u64) -> (s: &'static str)
    requires
        d < 10,
    ensures
        s@ == seq![digit_char(d as nat)],
{
    proof {
        reveal_strlit("0");
        reveal_strlit("1");
        reveal_strlit("2");
        reveal_strlit("3");
        reveal_strlit("4");
        reveal_strlit("5");
        reveal_strlit("6");
        reveal_strlit("7");
        reveal_strlit("8");
        reveal_strlit("9");
    }
    let s: &'static str = if d == 0 {
        "0"
    } else if d == 1 {
        "1"
    } else if d == 2 {
        "2"
    } else if d == 3 {
        "3"
    } else if d == 4 {
        "4"
    } else if d == 5 {
        "5"
    } else if d == 6 {
        "6"
    } else if d == 7 {
        "7"
    } else if d == 8 {
        "8"
    } else {
        "9"
    };
    proof {
        assert(s@ =~= seq![digit_char(d as nat)]);
    }
    s
}

/// Renders an unsigned value in decimal.
pub fn render_u64(n: u64) -> (s: String)
    ensures
        s@ == dec_nat(n as nat),
    decreases n,
{
    let d = digit_str(n % 10);
    if n < 10 {
        String::from_str(d)
    } else {
        let mut s = render_u64(n / 10);
        s.append(d);
        proof {
            assert(s@ =~= dec_nat(n as nat));
        }
        s
    }
}

/// Renders a signed value in decimal.
pub fn render_i64(v: i64) -> (s: String)
    ensures
        s@ == dec_int(v as int),
{
    if v >= 0 {
        render_u64(v as u64)
    } else {
        let mag: u64 = ((-(v + 1)) as u64) + 1;
        proof {
            assert(mag as int == -(v as int));
        }
        let mut s = String::from_str("-");
        let rest = render_u64(mag);
        s.append(rest.as_str());
        proof {
            reveal_strlit("-");
            assert(s@ =~= dec_int(v as int));
        }
        s
    }
}

/// Renders a truth value as its usual words.
pub fn render_bool(b: bool) -> (s: String)
    ensures
        b ==> s@ == "true"@,
        !b ==> s@ == "false"@,
{
    if b {
        String::from_str("true")
    } else {
        String::from_str("false")
    }
}

/// One schema entry as the schema accessor prints it: the field's name and
/// its type, each quoted, separated by a colon.
pub open spec fn schema_entry_text(name: Seq<char>, dtype: Seq<char>) -> Seq<char> {
    "\""@ + name + "\": \""@ + dtype + "\""@
}

/// The entries joined with commas.
pub open spec fn schema_entries_text(fields: Seq<(Seq<char>, Seq<char>)>) -> Seq<char>
    decreases fields.len(),
{
    if fields.len() == 0 {
        Seq::<char>::empty()
    } else if fields.len() == 1 {
        schema_entry_text(fields[0].0, fields[0].1)
    } else {
        schema_entries_text(fields.drop_last()) + ", "@ + schema_entry_text(
            fields.last().0,
            fields.last().1,
        )
    }
}

/// The whole schema line: the joined entries inside braces.
pub open spec fn spec_schema_text(fields: Seq<(Seq<char>, Seq<char>)>) -> Seq<char> {
    "{ "@ + schema_entries_text(fields) + " }"@
}

/// Renders a schema as one line of text, per [`spec_schema_text`]: each
/// field's name and type quoted and joined with commas, the whole inside
/// braces.
pub fn schema_text(fields: &Vec<(String, String)>) -> (s: String)
    ensures
        s@ == spec_schema_text(fields.deep_view()),
{
    let ghost model = fields.deep_view();
    let mut acc = String::from_str("{ ");
    let mut i: usize = 0;
    while i < fields.len()
        invariant
            0 <= i <= fields@.len(),
            model == fields.deep_view(),
            acc@ == "{ "@ + schema_entries_text(model.take(i as int)),
        decreases fields@.len() - i,
    {
        if i > 0 {
            acc.append(", ");
        }
        acc.append("\"");
        acc.append(fields[i].0.as_str());
        acc.append("\": \"");
        acc.append(fields[i].1.as_str());
        acc.append("\"");
        proof {
            assert(model.take(i as int + 1).drop_last() =~= model.take(i as int));
            assert(model.take(i as int + 1).last() == model[i as int]);
            assert(model[i as int].0 == fields@[i as int].0@);
            assert(acc@ =~= "{ "@ + schema_entries_text(model.take(i as int + 1)));
        }
        i = i + 1;
    }
    acc.append(" }");
    proof {
        assert(model.take(model.len() as int) =~= model);
        assert(acc@ =~= spec_schema_text(model));
    }
    acc
}

} // verus!
