//! The string form of a typed value.

use vstd::prelude::*;
use crate::text::{int_text, push_char, push_int, push_text};
use crate::value::{in_calendar, TypedValue, ValueView};

verus! {

/// The text that gitql_core writes for a date whose value is `timestamp`
/// seconds since the epoch.
pub uninterp spec fn date_text(timestamp: int) -> Seq<char>;

/// The text that gitql_core writes for a date-time whose value is
/// `timestamp` seconds since the epoch.
pub uninterp spec fn date_time_text(timestamp: int) -> Seq<char>;

/// Calls `literal` of gitql_core's `DateValue`, which turns the seconds into
/// a calendar date and formats it as year, month and day. The call panics on
/// seconds outside the calendar, so those are left out; for the others the
/// result depends on the seconds alone.
#[verifier::external_body]
fn date_literal(timestamp: i64) -> (s: String)
    requires
        in_calendar(timestamp as int),
    ensures
        s@ == date_text(timestamp as int),
{
    gitql_core::values::base::Value::literal(
        &gitql_core::values::date::DateValue { value: timestamp },
    )
}

/// Calls `literal` of gitql_core's `DateTimeValue`, which turns the seconds
/// into a calendar date and a time of day and formats both. The call panics
/// on seconds outside the calendar, so those are left out; for the others
/// the result depends on the seconds alone.
#[verifier::external_body]
fn date_time_literal(timestamp: i64) -> (s: String)
    requires
        in_calendar(timestamp as int),
    ensures
        s@ == date_time_text(timestamp as int),
{
    gitql_core::values::base::Value::literal(
        &gitql_core::values::datetime::DateTimeValue { value: timestamp },
    )
}

/// The pieces of text in order, with `separator` between each two.
pub open spec fn joined(parts: Seq<Seq<char>>, separator: Seq<char>) -> Seq<char>
    decreases parts.len(),
{
    if parts.len() == 0 {
        Seq::empty()
    } else if parts.len() == 1 {
        parts[0]
    } else {
        joined(parts.drop_last(), separator) + separator + parts.last()
    }
}

/// The string form of a value: a number in decimal, text as it is, a date
/// and a date-time as the calendar writes them, a range as its two bounds
/// with `..` between, an array as its elements in brackets.
pub open spec fn text_of(v: ValueView) -> Seq<char>
    decreases v,
{
    match v {
        ValueView::Integer(i) => int_text(i),
        ValueView::Float { bits, text } => text,
        ValueView::Text(s) => s,
        ValueView::Boolean(b) => if b {
            seq!['t', 'r', 'u', 'e']
        } else {
            seq!['f', 'a', 'l', 's', 'e']
        },
        ValueView::Date(t) => date_text(t),
        ValueView::Time(s) => s,
        ValueView::DateTime(t) => date_time_text(t),
        ValueView::Array(_, items) => seq!['['] + joined(texts_of(items), seq![',', ' ']) + seq![
            ']',
        ],
        ValueView::Range(lower, upper) => text_of(*lower) + seq!['.', '.'] + text_of(*upper),
        ValueView::Null => seq!['N', 'u', 'l', 'l'],
    }
}

/// The string forms of a sequence of values, in order.
pub open spec fn texts_of(items: Seq<ValueView>) -> Seq<Seq<char>>
    decreases items,
{
    Seq::new(
        items.len(),
        |i: int|
            if 0 <= i < items.len() {
                text_of(items[i])
            } else {
                Seq::empty()
            },
    )
}

/// Appends the string form of `v` to `buffer`.
pub fn push_literal(buffer: &mut String, v: &TypedValue)
    requires
        v@.has_text(),
    ensures
        final(buffer)@ == old(buffer)@ + text_of(v@),
    decreases v,
{
    let ghost start = buffer@;
    match v {
        TypedValue::Integer(i) => push_int(buffer, *i),
        TypedValue::Float { bits, text } => push_text(buffer, text.as_str()),
        TypedValue::Text(s) => push_text(buffer, s.as_str()),
        TypedValue::Boolean(b) => {
            if *b {
                proof {
                    reveal_strlit("true");
                }
                push_text(buffer, "true");
                assert(buffer@ =~= start + seq!['t', 'r', 'u', 'e']);
            } else {
                proof {
                    reveal_strlit("false");
                }
                push_text(buffer, "false");
                assert(buffer@ =~= start + seq!['f', 'a', 'l', 's', 'e']);
            }
        },
        TypedValue::Date(t) => {
            let s = date_literal(*t);
            push_text(buffer, s.as_str());
        },
        TypedValue::Time(s) => push_text(buffer, s.as_str()),
        TypedValue::DateTime(t) => {
            let s = date_time_literal(*t);
            push_text(buffer, s.as_str());
        },
        TypedValue::Array(_, items) => {
            let ghost views = v@->Array_1;
            let ghost texts = texts_of(views);
            push_char(buffer, '[');
            let mut i: usize = 0;
            while i < items.len()
                invariant
                    i <= items.len(),
                    v is Array,
                    v->Array_1 == *items,
                    views == v@->Array_1,
                    views.len() == items@.len(),
                    texts == texts_of(views),
                    v@.has_text(),
                    buffer@ == start + seq!['['] + joined(texts.take(i as int), seq![',', ' ']),
                decreases items.len() - i,
            {
                let ghost before = buffer@;
                if i > 0 {
                    proof {
                        reveal_strlit(", ");
                    }
                    push_text(buffer, ", ");
                    assert(buffer@ =~= before + seq![',', ' ']);
                }
                assert(views[i as int] == items@[i as int]@);
                assert(views[i as int].has_text());
                push_literal(buffer, &items[i]);
                proof {
                    let next = texts.take(i + 1);
                    assert(next.drop_last() =~= texts.take(i as int));
                    assert(next.last() == text_of(views[i as int]));
                    assert(buffer@ =~= start + seq!['['] + joined(next, seq![',', ' ']));
                }
                i = i + 1;
            }
            push_char(buffer, ']');
            proof {
                assert(texts.take(items@.len() as int) =~= texts);
                assert(buffer@ =~= start + text_of(v@));
            }
        },
        TypedValue::Range(lower, upper) => {
            push_literal(buffer, lower);
            proof {
                reveal_strlit("..");
            }
            push_text(buffer, "..");
            push_literal(buffer, upper);
            assert(buffer@ =~= start + text_of(v@));
        },
        TypedValue::Null => {
            proof {
                reveal_strlit("Null");
            }
            push_text(buffer, "Null");
            assert(buffer@ =~= start + seq!['N', 'u', 'l', 'l']);
        },
    }
}

/// The string form of `v` as a string of its own.
pub fn literal(v: &TypedValue) -> (s: String)
    requires
        v@.has_text(),
    ensures
        s@ == text_of(v@),
{
    let mut s = String::new();
    push_literal(&mut s, v);
    assert(s@ =~= text_of(v@));
    s
}

} // verus!
