//! Testing at run time what rendering asks of its input.

use vstd::prelude::*;
use crate::render::{renderable, row_renderable};
use crate::result_set::{ResultSet, Row};
use crate::value::{fits_nanos, in_calendar, ElementType, TypedValue};

verus! {

/// Whether `timestamp` lies within the calendar of date texts.
pub fn timestamp_in_calendar(timestamp: i64) -> (b: bool)
    ensures
        b == in_calendar(timestamp as int),
{
    -8_334_601_228_800 <= timestamp && timestamp <= 8_210_266_876_799
}

/// Whether `seconds` can be counted in nanoseconds in 64 bits.
pub fn seconds_fit_nanos(seconds: i64) -> (b: bool)
    ensures
        b == fits_nanos(seconds as int),
{
    -9_223_372_036 <= seconds && seconds <= 9_223_372_036
}

impl ElementType {
    /// Whether `v` is of the kind that this element type declares.
    pub fn admits_value(self, v: &TypedValue) -> (b: bool)
        ensures
            b == self.admits(v@),
    {
        match self {
            ElementType::Integer => matches!(v, TypedValue::Integer(_)),
            ElementType::Float => matches!(v, TypedValue::Float { .. }),
            ElementType::Text => matches!(v, TypedValue::Text(_)),
            ElementType::Boolean => matches!(v, TypedValue::Boolean(_)),
            ElementType::Date => matches!(v, TypedValue::Date(_)),
            ElementType::Time => matches!(v, TypedValue::Time(_)),
            ElementType::DateTime => matches!(v, TypedValue::DateTime(_)),
            ElementType::Array => matches!(v, TypedValue::Array(_, _)),
            ElementType::Range => matches!(v, TypedValue::Range(_, _)),
            ElementType::Null => matches!(v, TypedValue::Null),
            _ => true,
        }
    }

    /// Whether the elements of an array of this type are rendered as their
    /// string forms.
    pub fn rendered_as_text(self) -> (b: bool)
        ensures
            b == self.renders_as_text(),
    {
        match self {
            ElementType::Undefined
            | ElementType::Any
            | ElementType::Null
            | ElementType::Integer
            | ElementType::Float
            | ElementType::Boolean => false,
            _ => true,
        }
    }
}

impl TypedValue {
    /// Whether the value keeps the invariant of the data model.
    pub fn is_wf(&self) -> (b: bool)
        ensures
            b == self@.wf(),
        decreases self,
    {
        match self {
            TypedValue::Array(element_type, items) => {
                let ghost views = self@->Array_1;
                let mut i: usize = 0;
                while i < items.len()
                    invariant
                        i <= items.len(),
                        self is Array,
                        self->Array_0 == *element_type,
                        self->Array_1 == *items,
                        views == self@->Array_1,
                        forall|k: int|
                            0 <= k < i ==> element_type.admits(#[trigger] views[k])
                                && views[k].wf(),
                    decreases items.len() - i,
                {
                    assert(views[i as int] == items@[i as int]@);
                    if !element_type.admits_value(&items[i]) || !items[i].is_wf() {
                        return false;
                    }
                    i = i + 1;
                }
                true
            },
            TypedValue::Range(lower, upper) => lower.is_wf() && upper.is_wf(),
            _ => true,
        }
    }

    /// Whether the value has a string form.
    pub fn has_text_form(&self) -> (b: bool)
        ensures
            b == self@.has_text(),
        decreases self,
    {
        match self {
            TypedValue::Date(t) => timestamp_in_calendar(*t),
            TypedValue::DateTime(t) => timestamp_in_calendar(*t),
            TypedValue::Array(_, items) => {
                let ghost views = self@->Array_1;
                let mut i: usize = 0;
                while i < items.len()
                    invariant
                        i <= items.len(),
                        self is Array,
                        self->Array_1 == *items,
                        views == self@->Array_1,
                        forall|k: int| 0 <= k < i ==> (#[trigger] views[k]).has_text(),
                    decreases items.len() - i,
                {
                    assert(views[i as int] == items@[i as int]@);
                    if !items[i].has_text_form() {
                        return false;
                    }
                    i = i + 1;
                }
                true
            },
            TypedValue::Range(lower, upper) => lower.has_text_form() && upper.has_text_form(),
            _ => true,
        }
    }

    /// Whether the value can be rendered as a cell.
    pub fn is_renderable(&self) -> (b: bool)
        ensures
            b == renderable(self@),
    {
        if !self.is_wf() {
            return false;
        }
        match self {
            TypedValue::DateTime(t) => seconds_fit_nanos(*t),
            TypedValue::Array(element_type, _) => {
                if element_type.unimplemented() {
                    false
                } else if element_type.rendered_as_text() {
                    self.has_text_form()
                } else {
                    true
                }
            },
            TypedValue::Range(_, _) => self.has_text_form(),
            _ => true,
        }
    }
}

impl Row {
    /// Whether the visible cells of the row can be rendered under `width`
    /// titles behind `hidden` hidden columns.
    pub fn is_renderable(&self, hidden: usize, width: usize) -> (b: bool)
        ensures
            b == row_renderable(self@, hidden as nat, width as nat),
    {
        let cells = self.values.len();
        if cells < hidden || cells - hidden != width {
            return false;
        }
        let mut c: usize = hidden;
        while c < cells
            invariant
                hidden <= c <= cells,
                cells == self.values@.len(),
                cells == hidden + width,
                forall|k: int| hidden <= k < c ==> renderable(#[trigger] self@[k]),
            decreases cells - c,
        {
            assert(self@[c as int] == self.values@[c as int]@);
            if !self.values[c].is_renderable() {
                return false;
            }
            c = c + 1;
        }
        true
    }
}

impl ResultSet {
    /// Whether every row of every group can be rendered.
    pub fn is_renderable(&self) -> (b: bool)
        ensures
            b == self@.renderable(),
    {
        let width = self.titles.len();
        let mut g: usize = 0;
        while g < self.groups.len()
            invariant
                g <= self.groups@.len(),
                width == self.titles@.len(),
                forall|i: int, r: int|
                    0 <= i < g && 0 <= r < self@.groups[i].len() ==> row_renderable(
                        #[trigger] self@.groups[i][r],
                        self@.hidden,
                        self@.titles.len(),
                    ),
            decreases self.groups.len() - g,
        {
            let group = &self.groups[g];
            assert(self@.groups[g as int] == group@);
            let mut r: usize = 0;
            while r < group.rows.len()
                invariant
                    r <= group.rows@.len(),
                    g < self.groups@.len(),
                    width == self.titles@.len(),
                    self@.groups[g as int] == group@,
                    forall|k: int|
                        0 <= k < r ==> row_renderable(
                            #[trigger] self@.groups[g as int][k],
                            self@.hidden,
                            self@.titles.len(),
                        ),
                decreases group.rows.len() - r,
            {
                assert(group@[r as int] == group.rows@[r as int]@);
                if !group.rows[r].is_renderable(self.hidden, width) {
                    return false;
                }
                r = r + 1;
            }
            g = g + 1;
        }
        true
    }
}

impl ResultSet {
    /// Whether the result set keeps the invariant of the data model: each
    /// row holds a value for every hidden column and every title, and each
    /// value is well formed.
    pub fn is_wf(&self) -> (b: bool)
        ensures
            b == self@.wf(),
    {
        let width = self.titles.len();
        let mut g: usize = 0;
        while g < self.groups.len()
            invariant
                g <= self.groups@.len(),
                width == self.titles@.len(),
                forall|i: int, r: int|
                    0 <= i < g && 0 <= r < self@.groups[i].len() ==> self@.row_wf(
                        #[trigger] self@.groups[i][r],
                    ),
            decreases self.groups.len() - g,
        {
            let group = &self.groups[g];
            assert(self@.groups[g as int] == group@);
            let mut r: usize = 0;
            while r < group.rows.len()
                invariant
                    r <= group.rows@.len(),
                    g < self.groups@.len(),
                    width == self.titles@.len(),
                    self@.groups[g as int] == group@,
                    forall|k: int|
                        0 <= k < r ==> self@.row_wf(#[trigger] self@.groups[g as int][k]),
                decreases group.rows.len() - r,
            {
                let row = &group.rows[r];
                assert(group@[r as int] == row@);
                let cells = row.values.len();
                if cells < self.hidden || cells - self.hidden != width {
                    assert(!self@.row_wf(self@.groups[g as int][r as int]));
                    return false;
                }
                let mut c: usize = 0;
                while c < cells
                    invariant
                        c <= cells,
                        cells == row.values@.len(),
                        g < self.groups@.len(),
                        r < self@.groups[g as int].len(),
                        self@.groups[g as int][r as int] == row@,
                        forall|k: int| 0 <= k < c ==> (#[trigger] row@[k]).wf(),
                    decreases cells - c,
                {
                    assert(row@[c as int] == row.values@[c as int]@);
                    if !row.values[c].is_wf() {
                        assert(!self@.row_wf(self@.groups[g as int][r as int]));
                        return false;
                    }
                    c = c + 1;
                }
                assert(self@.row_wf(self@.groups[g as int][r as int]));
                r = r + 1;
            }
            g = g + 1;
        }
        true
    }
}

} // verus!
