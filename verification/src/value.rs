//! Typed values: the cells of a result set.

use vstd::prelude::*;

verus! {

/// The declared type of the elements of an array.
#[derive(Clone, Copy, Debug, PartialEq, Eq, Structural)]
pub enum ElementType {
    Any,
    Text,
    Integer,
    Float,
    Boolean,
    Date,
    Time,
    DateTime,
    Undefined,
    Null,
    Array,
    Range,
    Variant,
    Optional,
    Varargs,
    Dynamic,
}

/// One cell of a result set.
///
/// A float is held as its IEEE-754 bit pattern together with its printed
/// form: the library hands both on and computes with neither. A date and a
/// date-time hold seconds since the epoch.
#[derive(Debug, PartialEq)]
pub enum TypedValue {
    Integer(i64),
    Float { bits: u64, text: String },
    Text(String),
    Boolean(bool),
    Date(i64),
    Time(String),
    DateTime(i64),
    Array(ElementType, Vec<TypedValue>),
    Range(Box<TypedValue>, Box<TypedValue>),
    Null,
}

/// The mathematical model of a [`TypedValue`].
pub enum ValueView {
    Integer(int),
    Float { bits: u64, text: Seq<char> },
    Text(Seq<char>),
    Boolean(bool),
    Date(int),
    Time(Seq<char>),
    DateTime(int),
    Array(ElementType, Seq<ValueView>),
    Range(Box<ValueView>, Box<ValueView>),
    Null,
}

impl TypedValue {
    /// The model of this value: integers without bounds, text as sequences
    /// of characters, and the elements of an array as a sequence of models.
    pub open spec fn model(self) -> ValueView
        decreases self,
    {
        match self {
            TypedValue::Integer(i) => ValueView::Integer(i as int),
            TypedValue::Float { bits, text } => ValueView::Float { bits, text: text@ },
            TypedValue::Text(s) => ValueView::Text(s@),
            TypedValue::Boolean(b) => ValueView::Boolean(b),
            TypedValue::Date(t) => ValueView::Date(t as int),
            TypedValue::Time(s) => ValueView::Time(s@),
            TypedValue::DateTime(t) => ValueView::DateTime(t as int),
            TypedValue::Array(element_type, items) => ValueView::Array(
                element_type,
                Seq::new(
                    items@.len(),
                    |i: int|
                        if 0 <= i < items@.len() {
                            items@[i].model()
                        } else {
                            ValueView::Null
                        },
                ),
            ),
            TypedValue::Range(lower, upper) => ValueView::Range(
                Box::new(lower.model()),
                Box::new(upper.model()),
            ),
            TypedValue::Null => ValueView::Null,
        }
    }
}

impl View for TypedValue {
    type V = ValueView;

    open spec fn view(&self) -> ValueView {
        self.model()
    }
}

/// The models of a sequence of values, in order.
pub open spec fn models(values: Seq<TypedValue>) -> Seq<ValueView> {
    Seq::new(values.len(), |i: int| values[i]@)
}

/// The first second that the calendar of date texts can express: the start
/// of the year -262143.
pub open spec fn calendar_first() -> int {
    -8_334_601_228_800
}

/// The last second that the calendar of date texts can express: the end of
/// the year 262142.
pub open spec fn calendar_last() -> int {
    8_210_266_876_799
}

/// Whether `timestamp`, in seconds since the epoch, lies in a year that the
/// calendar of date texts can express.
pub open spec fn in_calendar(timestamp: int) -> bool {
    calendar_first() <= timestamp <= calendar_last()
}

/// The number of nanoseconds in a second.
pub const NANOS_PER_SECOND: i64 = 1_000_000_000;

/// Whether `seconds` since the epoch can be counted in nanoseconds in 64
/// bits.
pub open spec fn fits_nanos(seconds: int) -> bool {
    i64::MIN <= seconds * NANOS_PER_SECOND <= i64::MAX
}

impl ElementType {
    /// Whether arrays of this element type have no rendering.
    pub open spec fn is_unimplemented(self) -> bool {
        self == ElementType::Undefined || self == ElementType::Any || self == ElementType::Null
    }

    /// Whether a value of the given model is of the kind that this element
    /// type declares. The types that name no single kind admit every value.
    pub open spec fn admits(self, v: ValueView) -> bool {
        match self {
            ElementType::Integer => v is Integer,
            ElementType::Float => v is Float,
            ElementType::Text => v is Text,
            ElementType::Boolean => v is Boolean,
            ElementType::Date => v is Date,
            ElementType::Time => v is Time,
            ElementType::DateTime => v is DateTime,
            ElementType::Array => v is Array,
            ElementType::Range => v is Range,
            ElementType::Null => v is Null,
            ElementType::Any
            | ElementType::Undefined
            | ElementType::Variant
            | ElementType::Optional
            | ElementType::Varargs
            | ElementType::Dynamic => true,
        }
    }

    /// Whether arrays of this element type have no rendering.
    pub fn unimplemented(self) -> (b: bool)
        ensures
            b == self.is_unimplemented(),
    {
        match self {
            ElementType::Undefined | ElementType::Any | ElementType::Null => true,
            _ => false,
        }
    }
}

impl ValueView {
    /// The invariant of the data model: in every array, at every depth, each
    /// element is of the kind that the array declares.
    pub open spec fn wf(self) -> bool
        decreases self,
    {
        match self {
            ValueView::Array(element_type, items) => forall|i: int|
                0 <= i < items.len() ==> element_type.admits(#[trigger] items[i]) && items[i].wf(),
            ValueView::Range(lower, upper) => lower.wf() && upper.wf(),
            _ => true,
        }
    }

    /// Whether the value has a string form: every date and date-time in it
    /// lies within the calendar.
    pub open spec fn has_text(self) -> bool
        decreases self,
    {
        match self {
            ValueView::Date(t) => in_calendar(t),
            ValueView::DateTime(t) => in_calendar(t),
            ValueView::Array(_, items) => forall|i: int|
                0 <= i < items.len() ==> (#[trigger] items[i]).has_text(),
            ValueView::Range(lower, upper) => lower.has_text() && upper.has_text(),
            _ => true,
        }
    }
}

} // verus!
