//! How values turn into the text of a field.

use crate::value::{Entries, Value, ValueView};
use vstd::prelude::*;
use vstd::string::*;

verus! {

/// The fields of one row, each as its characters.
pub open spec fn texts(fields: Seq<String>) -> Seq<Seq<char>> {
    fields.map_values(|s: String| s@)
}

/// The character of a decimal digit.
pub open spec fn digit_char(d: int) -> char {
    if d == 0 {
        '0'
    } else if d == 1 {
        '1'
    } else if d == 2 {
        '2'
    } else if d == 3 {
        '3'
    } else if d == 4 {
        '4'
    } else if d == 5 {
        '5'
    } else if d == 6 {
        '6'
    } else if d == 7 {
        '7'
    } else if d == 8 {
        '8'
    } else {
        '9'
    }
}

/// The decimal digits of a natural number, most significant first, without
/// leading zeros.
pub open spec fn digits(n: nat) -> Seq<char>
    decreases n,
{
    if n < 10 {
        seq![digit_char(n as int)]
    } else {
        digits(n / 10).push(digit_char((n % 10) as int))
    }
}

/// The canonical decimal form of an integer: a minus sign where it is
/// negative, then its digits.
pub open spec fn decimal(i: int) -> Seq<char> {
    if i < 0 {
        seq!['-'] + digits((-i) as nat)
    } else {
        digits(i as nat)
    }
}

/// The text of a truth value.
pub open spec fn bool_text(b: bool) -> Seq<char> {
    if b {
        "true"@
    } else {
        "false"@
    }
}

/// What stands between two items of a list or two entries of a record:
/// nothing before the first, a comma and a space before each other.
pub open spec fn separator(position: int) -> Seq<char> {
    if position == 0 {
        Seq::empty()
    } else {
        ", "@
    }
}

/// The generic text of a value, as it appears inside a list or a record:
/// scalars as they are written, `null` for the null value, a list between
/// square brackets, a record between braces with a colon after each name,
/// and a value of another kind by the text that it holds.
pub open spec fn display(v: ValueView) -> Seq<char>
    decreases v,
{
    match v {
        ValueView::Null => "null"@,
        ValueView::Boolean(b) => bool_text(b),
        ValueView::Integer(i) => decimal(i),
        ValueView::Float(t) => t,
        ValueView::Text(t) => t,
        ValueView::List(items) => "["@ + display_items(items) + "]"@,
        ValueView::Record(entries) => "{"@ + display_entries(entries) + "}"@,
        ValueView::Other(t) => t,
    }
}

/// The generic texts of the items of a list, separated.
pub open spec fn display_items(items: Seq<ValueView>) -> Seq<char>
    decreases items,
{
    if items.len() == 0 {
        Seq::empty()
    } else {
        display_items(items.drop_last()) + separator(items.len() - 1) + display(items.last())
    }
}

/// The generic texts of the entries of a record, separated: each name, a
/// colon and a space, and the generic text of the value.
pub open spec fn display_entries(entries: Entries) -> Seq<char>
    decreases entries,
{
    if entries.len() == 0 {
        Seq::empty()
    } else {
        display_entries(entries.drop_last()) + separator(entries.len() - 1) + entries.last().0
            + ": "@ + display(entries.last().1)
    }
}

/// The text of a value as a field: text as it is, an integer in canonical
/// decimal form, a float by the text that stands for it, a truth value as
/// `true` or `false`, the null value as the empty text, and any other value
/// by its generic text.
pub open spec fn rendered(v: ValueView) -> Seq<char> {
    match v {
        ValueView::Text(t) => t,
        ValueView::Integer(i) => decimal(i),
        ValueView::Float(t) => t,
        ValueView::Boolean(b) => bool_text(b),
        ValueView::Null => Seq::empty(),
        _ => display(v),
    }
}

/// The one-character text of a decimal digit.
fn digit_str(d: u64) -> (s: &'static str)
    requires
        d < 10,
    ensures
        s@ == seq![digit_char(d as int)],
{
    let s = if d == 0 {
        "0"
    } else if d == 1 {
        "1"
    } else if d == 2 {
        "2"
    } else if d == 3 {
        "3"
    } else if d == 4 {
        "4"
    } else if d == 5 {
        "5"
    } else if d == 6 {
        "6"
    } else if d == 7 {
        "7"
    } else if d == 8 {
        "8"
    } else {
        "9"
    };
    proof {
        reveal_strlit("0");
        reveal_strlit("1");
        reveal_strlit("2");
        reveal_strlit("3");
        reveal_strlit("4");
        reveal_strlit("5");
        reveal_strlit("6");
        reveal_strlit("7");
        reveal_strlit("8");
        reveal_strlit("9");
        assert(s@ =~= seq![digit_char(d as int)]);
    }
    s
}

/// Appends the decimal digits of `n`.
fn push_digits(out: &mut String, n: u64)
    ensures
        final(out)@ == old(out)@ + digits(n as nat),
    decreases n,
{
    if n >= 10 {
        push_digits(out, n / 10);
    }
    out.append(digit_str(n % 10));
    assert(out@ =~= old(out)@ + digits(n as nat));
}

/// Appends the canonical decimal form of `i`.
fn push_decimal(out: &mut String, i: i64)
    ensures
        final(out)@ == old(out)@ + decimal(i as int),
{
    if i < 0 {
        out.append("-");
        proof {
            reveal_strlit("-");
        }
        let n: u64 = (-(i as i128)) as u64;
        push_digits(out, n);
        assert(out@ =~= old(out)@ + decimal(i as int));
    } else {
        push_digits(out, i as u64);
    }
}

/// Appends the text of a truth value.
fn push_bool(out: &mut String, b: bool)
    ensures
        final(out)@ == old(out)@ + bool_text(b),
{
    if b {
        out.append("true");
    } else {
        out.append("false");
    }
}

/// Appends the generic text of `v`.
pub fn push_display(out: &mut String, v: &Value)
    ensures
        final(out)@ == old(out)@ + display(v@),
    decreases v,
{
    match v {
        Value::Null => {
            out.append("null");
        },
        Value::Boolean(b) => {
            push_bool(out, *b);
        },
        Value::Integer(i) => {
            push_decimal(out, *i);
        },
        Value::Float(t) => {
            out.append(t.as_str());
        },
        Value::Text(t) => {
            out.append(t.as_str());
        },
        Value::Other(t) => {
            out.append(t.as_str());
        },
        Value::List(items) => {
            out.append("[");
            let ghost views = v@->List_0;
            let mut i: usize = 0;
            while i < items.len()
                invariant
                    i <= items.len(),
                    *v == Value::List(*items),
                    v@ == ValueView::List(views),
                    out@ == old(out)@ + "["@ + display_items(views.take(i as int)),
                decreases items.len() - i,
            {
                if i > 0 {
                    out.append(", ");
                }
                push_display(out, &items[i]);
                proof {
                    let next = views.take(i + 1);
                    assert(next.drop_last() =~= views.take(i as int));
                    assert(next.last() == items[i as int]@);
                    assert(out@ =~= old(out)@ + "["@ + display_items(next));
                }
                i += 1;
            }
            out.append("]");
            assert(views.take(i as int) =~= views);
            assert(out@ =~= old(out)@ + display(v@));
        },
        Value::Record(r) => {
            out.append("{");
            let ghost entries = r@;
            let mut i: usize = 0;
            while i < r.len()
                invariant
                    i <= r@.len(),
                    decreases_to!(v => r),
                    entries == r@,
                    out@ == old(out)@ + "{"@ + display_entries(entries.take(i as int)),
                decreases r@.len() - i,
            {
                if i > 0 {
                    out.append(", ");
                }
                out.append(r.key_at(i).as_str());
                out.append(": ");
                push_display(out, r.value_at(i));
                proof {
                    let next = entries.take(i + 1);
                    assert(next.drop_last() =~= entries.take(i as int));
                    assert(next.last() == entries[i as int]);
                    assert(out@ =~= old(out)@ + "{"@ + display_entries(next));
                }
                i += 1;
            }
            out.append("}");
            assert(entries.take(i as int) =~= entries);
            assert(out@ =~= old(out)@ + display(v@));
        },
    }
}

/// The text of a value as a field.
pub fn render(v: &Value) -> (text: String)
    ensures
        text@ == rendered(v@),
{
    match v {
        Value::Text(t) => t.clone(),
        Value::Float(t) => t.clone(),
        Value::Null => String::new(),
        _ => {
            let mut text = String::new();
            push_display(&mut text, v);
            assert(text@ =~= rendered(v@));
            text
        },
    }
}

} // verus!
