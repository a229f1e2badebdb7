//! Rendering a result set as a list of records of native values.

use vstd::prelude::*;
use crate::literal::{literal, text_of};
use crate::paginate::{is_paged, needs_pages, page_end, page_start, Pager, PagerView};
use crate::result_set::{
    concat_rows, lemma_concat_rows_member, lemma_concat_rows_small, row_views, title_views, ResultSet, ResultSetView, Row,
};
use crate::text::{int_text, int_to_string};
use crate::value::{fits_nanos, ElementType, TypedValue, ValueView, NANOS_PER_SECOND};

verus! {

/// A native value of the host: what a cell, a row or a whole result set is
/// rendered as.
///
/// A float is its IEEE-754 bit pattern; a date is a timestamp in
/// nanoseconds since the epoch, in UTC. A record holds its entries in the
/// order of the columns.
#[derive(Debug, PartialEq)]
pub enum Rendered {
    Int(i64),
    Float(u64),
    String(String),
    Bool(bool),
    Date(i64),
    List(Vec<Rendered>),
    Record(Vec<(String, Rendered)>),
    Nothing,
}

/// The mathematical model of a [`Rendered`] value.
pub enum RenderedView {
    Int(int),
    Float(u64),
    String(Seq<char>),
    Bool(bool),
    Date(int),
    List(Seq<RenderedView>),
    Record(Seq<(Seq<char>, RenderedView)>),
    Nothing,
}

impl Rendered {
    /// The model of this value.
    pub open spec fn model(self) -> RenderedView
        decreases self,
    {
        match self {
            Rendered::Int(i) => RenderedView::Int(i as int),
            Rendered::Float(bits) => RenderedView::Float(bits),
            Rendered::String(s) => RenderedView::String(s@),
            Rendered::Bool(b) => RenderedView::Bool(b),
            Rendered::Date(nanos) => RenderedView::Date(nanos as int),
            Rendered::List(items) => RenderedView::List(
                Seq::new(
                    items@.len(),
                    |i: int|
                        if 0 <= i < items@.len() {
                            items@[i].model()
                        } else {
                            RenderedView::Nothing
                        },
                ),
            ),
            Rendered::Record(entries) => RenderedView::Record(
                Seq::new(
                    entries@.len(),
                    |i: int|
                        if 0 <= i < entries@.len() {
                            (entries@[i].0@, entries@[i].1.model())
                        } else {
                            (Seq::empty(), RenderedView::Nothing)
                        },
                ),
            ),
            Rendered::Nothing => RenderedView::Nothing,
        }
    }
}

impl View for Rendered {
    type V = RenderedView;

    open spec fn view(&self) -> RenderedView {
        self.model()
    }
}

/// The text that stands for a result set without rows.
pub open spec fn no_data_text() -> Seq<char> {
    "No data to display"@
}

impl ElementType {
    /// Whether the elements of an array of this type are rendered as their
    /// string forms.
    pub open spec fn renders_as_text(self) -> bool {
        !self.is_unimplemented() && self != ElementType::Integer && self != ElementType::Float
            && self != ElementType::Boolean
    }
}

/// Whether a cell can be rendered: it is well formed, an array in it
/// declares an element type that has a rendering, the string forms that the
/// rendering uses exist, and a date-time can be counted in nanoseconds.
pub open spec fn renderable(v: ValueView) -> bool {
    &&& v.wf()
    &&& match v {
        ValueView::DateTime(t) => fits_nanos(t),
        ValueView::Array(element_type, items) => {
            &&& !element_type.is_unimplemented()
            &&& element_type.renders_as_text() ==> v.has_text()
        },
        ValueView::Range(_, _) => v.has_text(),
        _ => true,
    }
}

/// What one element of an array of the given element type is rendered as:
/// a native integer, float or boolean for those element types, and the
/// element's string form for the others.
pub open spec fn rendered_element(element_type: ElementType, e: ValueView) -> RenderedView {
    match element_type {
        ElementType::Integer => RenderedView::Int(e->Integer_0),
        ElementType::Float => RenderedView::Float(e->Float_bits),
        ElementType::Boolean => RenderedView::Bool(e->Boolean_0),
        _ => RenderedView::String(text_of(e)),
    }
}

/// What a cell is rendered as.
pub open spec fn rendered_cell(v: ValueView) -> RenderedView {
    match v {
        ValueView::Integer(i) => RenderedView::Int(i),
        ValueView::Float { bits, text } => RenderedView::Float(bits),
        ValueView::Text(s) => RenderedView::String(s),
        ValueView::Boolean(b) => RenderedView::Bool(b),
        ValueView::Date(t) => RenderedView::String(int_text(t)),
        ValueView::Time(s) => RenderedView::String(s),
        ValueView::DateTime(t) => RenderedView::Date(t * NANOS_PER_SECOND),
        ValueView::Array(element_type, items) => RenderedView::List(
            Seq::new(items.len(), |i: int| rendered_element(element_type, items[i])),
        ),
        ValueView::Range(_, _) => RenderedView::String(text_of(v)),
        ValueView::Null => RenderedView::Nothing,
    }
}

/// Whether the visible cells of a row can be rendered under `width` titles
/// behind `hidden` hidden columns.
pub open spec fn row_renderable(row: Seq<ValueView>, hidden: nat, width: nat) -> bool {
    &&& row.len() == hidden + width
    &&& forall|c: int| hidden <= c < row.len() ==> renderable(#[trigger] row[c])
}

/// The entries of the record that a row is rendered as: one for each title,
/// in the order of the titles, each with the rendering of the value that
/// stands behind the hidden columns at the title's position.
pub open spec fn rendered_row(titles: Seq<Seq<char>>, row: Seq<ValueView>, hidden: nat) -> Seq<
    (Seq<char>, RenderedView),
> {
    Seq::new(titles.len(), |i: int| (titles[i], rendered_cell(row[i + hidden])))
}

/// The records that a sequence of rows is rendered as, in the order of the
/// rows.
pub open spec fn rendered_rows(
    titles: Seq<Seq<char>>,
    rows: Seq<Seq<ValueView>>,
    hidden: nat,
) -> Seq<RenderedView> {
    Seq::new(rows.len(), |r: int| RenderedView::Record(rendered_row(titles, rows[r], hidden)))
}

impl ResultSetView {
    /// Whether every row of every group can be rendered.
    pub open spec fn renderable(self) -> bool {
        forall|g: int, r: int|
            0 <= g < self.groups.len() && 0 <= r < self.groups[g].len() ==> row_renderable(
                #[trigger] self.groups[g][r],
                self.hidden,
                self.titles.len(),
            )
    }

    /// What the first group is rendered as: the text for no data where there
    /// is no group or the first group has no rows, and else the list of the
    /// records of its rows.
    pub open spec fn rendered_first_group(self) -> RenderedView {
        if self.groups.len() == 0 || self.groups[0].len() == 0 {
            RenderedView::String(no_data_text())
        } else {
            RenderedView::List(rendered_rows(self.titles, self.groups[0], self.hidden))
        }
    }

    /// What the result set is rendered as: with more than one group, what
    /// the flattened result set is rendered as; else what its first group
    /// is rendered as.
    pub open spec fn rendered(self) -> RenderedView {
        if self.groups.len() > 1 {
            self.flattened().rendered_first_group()
        } else {
            self.rendered_first_group()
        }
    }
}

/// Renders one element of an array of the given element type.
fn render_element(element_type: ElementType, e: &TypedValue) -> (out: Rendered)
    requires
        !element_type.is_unimplemented(),
        element_type.admits(e@),
        element_type.renders_as_text() ==> e@.has_text(),
    ensures
        out@ == rendered_element(element_type, e@),
{
    match element_type {
        ElementType::Integer => match e {
            TypedValue::Integer(i) => Rendered::Int(*i),
            _ => Rendered::Nothing,
        },
        ElementType::Float => match e {
            TypedValue::Float { bits, text } => Rendered::Float(*bits),
            _ => Rendered::Nothing,
        },
        ElementType::Boolean => match e {
            TypedValue::Boolean(b) => Rendered::Bool(*b),
            _ => Rendered::Nothing,
        },
        _ => Rendered::String(literal(e)),
    }
}

/// Renders one cell as a native value: an integer, a float, text and a
/// boolean as themselves; a date as its seconds in decimal and a time as its
/// text; a date-time as a timestamp in nanoseconds; a range as the string
/// forms of its bounds with `..` between; an array as a list, element by
/// element; the null value as nothing.
pub fn render_cell(v: &TypedValue) -> (out: Rendered)
    requires
        renderable(v@),
    ensures
        out@ == rendered_cell(v@),
{
    match v {
        TypedValue::Integer(i) => Rendered::Int(*i),
        TypedValue::Float { bits, text } => Rendered::Float(*bits),
        TypedValue::Text(s) => Rendered::String(s.clone()),
        TypedValue::Boolean(b) => Rendered::Bool(*b),
        TypedValue::Date(t) => Rendered::String(int_to_string(*t)),
        TypedValue::Time(s) => Rendered::String(s.clone()),
        TypedValue::DateTime(t) => Rendered::Date(*t * NANOS_PER_SECOND),
        TypedValue::Array(element_type, items) => {
            let ghost views = v@->Array_1;
            let mut list: Vec<Rendered> = Vec::new();
            let mut i: usize = 0;
            while i < items.len()
                invariant
                    i <= items.len(),
                    v is Array,
                    v->Array_0 == *element_type,
                    v->Array_1 == *items,
                    views == v@->Array_1,
                    renderable(v@),
                    list@.len() == i,
                    forall|k: int|
                        0 <= k < i ==> (#[trigger] list@[k])@ == rendered_element(
                            *element_type,
                            views[k],
                        ),
                decreases items.len() - i,
            {
                assert(views[i as int] == items@[i as int]@);
                assert(element_type.admits(views[i as int]));
                assert(v@.has_text() ==> views[i as int].has_text());
                list.push(render_element(*element_type, &items[i]));
                i = i + 1;
            }
            let out = Rendered::List(list);
            proof {
                assert(out@->List_0 =~= rendered_cell(v@)->List_0);
            }
            out
        },
        TypedValue::Range(_, _) => Rendered::String(literal(v)),
        TypedValue::Null => Rendered::Nothing,
    }
}

/// Renders one row as the entries of a record: one entry for each title, in
/// the order of the titles, and none for a hidden column.
pub fn render_row(titles: &Vec<String>, row: &Row, hidden: usize) -> (entries: Vec<
    (String, Rendered),
>)
    requires
        row_renderable(row@, hidden as nat, titles@.len()),
    ensures
        Rendered::Record(entries)@ == RenderedView::Record(
            rendered_row(title_views(titles@), row@, hidden as nat),
        ),
{
    let mut entries: Vec<(String, Rendered)> = Vec::new();
    let cells: usize = row.values.len();
    let mut i: usize = 0;
    while i < titles.len()
        invariant
            i <= titles.len(),
            row_renderable(row@, hidden as nat, titles@.len()),
            cells == hidden + titles@.len(),
            cells == row.values@.len(),
            entries@.len() == i,
            forall|k: int|
                0 <= k < i ==> (#[trigger] entries@[k]).0@ == titles@[k]@ && entries@[k].1@
                    == rendered_cell(row@[k + hidden]),
        decreases titles.len() - i,
    {
        assert(row@[i + hidden] == row.values@[i + hidden]@);
        let cell = render_cell(&row.values[i + hidden]);
        entries.push((titles[i].clone(), cell));
        i = i + 1;
    }
    proof {
        assert(Rendered::Record(entries)@->Record_0 =~= rendered_row(
            title_views(titles@),
            row@,
            hidden as nat,
        ));
    }
    entries
}

/// Renders the rows from `start` up to `end` as a list of records, one for
/// each row, in the order of the rows.
pub fn render_rows_between(
    titles: &Vec<String>,
    rows: &Vec<Row>,
    hidden: usize,
    start: usize,
    end: usize,
) -> (out: Rendered)
    requires
        start <= end <= rows@.len(),
        forall|r: int|
            start <= r < end ==> row_renderable((#[trigger] rows@[r])@, hidden as nat, titles@.len()),
    ensures
        out@ == RenderedView::List(
            rendered_rows(
                title_views(titles@),
                row_views(rows@).subrange(start as int, end as int),
                hidden as nat,
            ),
        ),
{
    let mut records: Vec<Rendered> = Vec::new();
    let mut r: usize = start;
    while r < end
        invariant
            start <= r <= end <= rows@.len(),
            forall|k: int|
                start <= k < end ==> row_renderable(
                    (#[trigger] rows@[k])@,
                    hidden as nat,
                    titles@.len(),
                ),
            records@.len() == r - start,
            forall|k: int|
                0 <= k < r - start ==> (#[trigger] records@[k])@ == RenderedView::Record(
                    rendered_row(title_views(titles@), rows@[start + k]@, hidden as nat),
                ),
        decreases end - r,
    {
        let entries = render_row(titles, &rows[r], hidden);
        records.push(Rendered::Record(entries));
        r = r + 1;
    }
    let out = Rendered::List(records);
    proof {
        assert(out@->List_0 =~= rendered_rows(
            title_views(titles@),
            row_views(rows@).subrange(start as int, end as int),
            hidden as nat,
        ));
    }
    out
}

/// Renders all the rows as a list of records, one for each row, in the
/// order of the rows.
pub fn render_rows(titles: &Vec<String>, rows: &Vec<Row>, hidden: usize) -> (out: Rendered)
    requires
        forall|r: int|
            0 <= r < rows@.len() ==> row_renderable((#[trigger] rows@[r])@, hidden as nat, titles@.len()),
    ensures
        out@ == RenderedView::List(rendered_rows(title_views(titles@), row_views(rows@), hidden as nat)),
{
    let out = render_rows_between(titles, rows, hidden, 0, rows.len());
    proof {
        assert(row_views(rows@).subrange(0, rows@.len() as int) =~= row_views(rows@));
    }
    out
}

/// Renders a result set. More than one group is first flattened into one,
/// in place. Without a group, or with a first group without rows, the
/// result is the text `No data to display`; else it is the list of the
/// records of the first group's rows.
pub fn render_objects(groups: &mut ResultSet) -> (out: Rendered)
    requires
        old(groups)@.renderable(),
    ensures
        out@ == old(groups)@.rendered(),
        final(groups)@ == if old(groups)@.groups.len() > 1 {
            old(groups)@.flattened()
        } else {
            old(groups)@
        },
{
    let ghost before = groups@;
    if groups.len() > 1 {
        groups.flat();
        proof {
            lemma_flattened_renderable(before);
        }
    }
    if groups.is_empty() || groups.groups[0].is_empty() {
        return Rendered::String("No data to display".to_owned());
    }
    assert forall|r: int| 0 <= r < groups.groups[0].rows@.len() implies row_renderable(
        (#[trigger] groups.groups[0].rows@[r])@,
        groups.hidden as nat,
        groups.titles@.len(),
    ) by {
        assert(groups@.groups[0][r] == groups.groups[0].rows@[r]@);
    }
    render_rows(&groups.titles, &groups.groups[0].rows, groups.hidden)
}

/// What rendering a result set gives: the rendered value, or, where the
/// rows are to be shown page by page, a pager on the first page.
#[derive(Debug, PartialEq)]
pub enum RenderOutcome {
    Value(Rendered),
    Paged(Pager),
}

impl ResultSetView {
    /// The rows that are rendered: those of the first group, once more than
    /// one group has been flattened into one.
    pub open spec fn shown_rows(self) -> Seq<Seq<ValueView>> {
        if self.groups.len() > 1 {
            concat_rows(self.groups)
        } else if self.groups.len() == 1 {
            self.groups[0]
        } else {
            Seq::empty()
        }
    }
}

/// Renders a result set, with or without pages. More than one group is
/// first flattened into one, in place. Where paging is asked for and one
/// page does not hold all the rows, the outcome is a pager on the first
/// page, for [`render_page`]; else it is what [`render_objects`] gives.
pub fn render(groups: &mut ResultSet, pagination: bool, page_size: usize) -> (out: RenderOutcome)
    requires
        old(groups)@.renderable(),
        pagination ==> page_size >= 1,
    ensures
        final(groups)@ == if old(groups)@.groups.len() > 1 {
            old(groups)@.flattened()
        } else {
            old(groups)@
        },
        match out {
            RenderOutcome::Value(value) => {
                &&& !is_paged(pagination, page_size as nat, old(groups)@.shown_rows().len())
                &&& value@ == old(groups)@.rendered()
            },
            RenderOutcome::Paged(pager) => {
                &&& is_paged(pagination, page_size as nat, old(groups)@.shown_rows().len())
                &&& pager@ == (PagerView {
                    rows: old(groups)@.shown_rows().len(),
                    page_size: page_size as nat,
                    current: 1,
                })
                &&& final(groups)@.groups.len() == 1
                &&& final(groups)@.groups[0] == old(groups)@.shown_rows()
            },
        },
{
    let ghost before = groups@;
    if groups.len() > 1 {
        groups.flat();
        proof {
            lemma_flattened_renderable(before);
        }
    }
    if groups.is_empty() {
        return RenderOutcome::Value(Rendered::String("No data to display".to_owned()));
    }
    let rows = groups.groups[0].len();
    proof {
        assert(groups@.groups[0] == groups.groups[0]@);
        assert(groups@.groups.len() == 1 ==> groups@.groups[0] == before.shown_rows());
    }
    if needs_pages(pagination, page_size, rows) {
        RenderOutcome::Paged(Pager::new(rows, page_size))
    } else {
        RenderOutcome::Value(render_objects(groups))
    }
}

/// Renders the page that the pager shows: the rows of the first group that
/// lie on that page, as a list of records.
pub fn render_page(groups: &ResultSet, pager: &Pager) -> (out: Rendered)
    requires
        groups@.renderable(),
        groups@.groups.len() >= 1,
        groups@.groups[0].len() == pager@.rows,
    ensures
        pager@.wf(),
        out@ == RenderedView::List(
            rendered_rows(
                groups@.titles,
                groups@.groups[0].subrange(
                    page_start(pager@.current, pager@.page_size),
                    page_end(pager@.current, pager@.page_size, pager@.rows),
                ),
                groups@.hidden,
            ),
        ),
{
    let (start, end) = pager.bounds();
    let group = &groups.groups[0];
    assert(groups@.groups[0] == group@);
    assert forall|r: int| start <= r < end implies row_renderable(
        (#[trigger] group.rows@[r])@,
        groups.hidden as nat,
        groups.titles@.len(),
    ) by {
        assert(groups@.groups[0][r] == group.rows@[r]@);
    }
    render_rows_between(&groups.titles, &group.rows, groups.hidden, start, end)
}

/// What paged rendering returns once the reader has quit: nothing.
pub fn finish_paging() -> (out: Rendered)
    ensures
        out@ == RenderedView::Nothing,
{
    Rendered::Nothing
}

/// Flattening keeps every row renderable.
pub proof fn lemma_flattened_renderable(rs: ResultSetView)
    requires
        rs.renderable(),
    ensures
        rs.flattened().renderable(),
{
    let flat = rs.flattened();
    assert forall|g: int, r: int|
        0 <= g < flat.groups.len() && 0 <= r < flat.groups[g].len() implies row_renderable(
        #[trigger] flat.groups[g][r],
        flat.hidden,
        flat.titles.len(),
    ) by {
        lemma_concat_rows_member(rs.groups, r);
        let (g0, r0) = choose|g0: int, r0: int|
            0 <= g0 < rs.groups.len() && 0 <= r0 < rs.groups[g0].len() && concat_rows(
                rs.groups,
            )[r] == #[trigger] rs.groups[g0][r0];
        assert(row_renderable(rs.groups[g0][r0], rs.hidden, rs.titles.len()));
    }
}

/// A result set of more than one group is rendered as the result set that
/// holds, in one group, the rows of all its groups in the order of the
/// groups.
pub proof fn lemma_rendered_as_flattened(rs: ResultSetView)
    requires
        rs.groups.len() > 1,
    ensures
        rs.rendered() == rs.flattened().rendered(),
        rs.flattened().groups.len() == 1,
        rs.flattened().groups[0] == concat_rows(rs.groups),
        rs.flattened().titles == rs.titles,
{
}

/// Without a group, or with a single group without rows, the rendering is
/// the text for no data. With more than one group the same holds where the
/// groups together have no row.
pub proof fn lemma_rendered_no_data(rs: ResultSetView)
    requires
        rs.groups.len() == 0 || rs.groups[0].len() == 0,
        rs.groups.len() > 1 ==> concat_rows(rs.groups).len() == 0,
    ensures
        rs.rendered() == RenderedView::String(no_data_text()),
{
}

/// The record of a row has one entry for each title, keyed by the titles in
/// their order, and the value of each entry is the rendering of the cell
/// that stands behind the hidden columns at the title's position: no hidden
/// column is among the entries.
pub proof fn lemma_record_follows_titles(
    titles: Seq<Seq<char>>,
    row: Seq<ValueView>,
    hidden: nat,
)
    ensures
        rendered_row(titles, row, hidden).len() == titles.len(),
        forall|i: int|
            0 <= i < titles.len() ==> (#[trigger] rendered_row(titles, row, hidden)[i]).0
                == titles[i],
        forall|i: int|
            0 <= i < titles.len() ==> (#[trigger] rendered_row(titles, row, hidden)[i]).1
                == rendered_cell(row[hidden + i]),
{
}

/// Every record of a rendered result set follows the titles, and there is
/// one record for each row.
pub proof fn lemma_rendered_records(rs: ResultSetView, r: int)
    requires
        rs.groups.len() == 1,
        0 <= r < rs.groups[0].len(),
    ensures
        rs.rendered() is List,
        rs.rendered()->List_0.len() == rs.groups[0].len(),
        rs.rendered()->List_0[r] == RenderedView::Record(
            rendered_row(rs.titles, rs.groups[0][r], rs.hidden),
        ),
        rs.rendered()->List_0[r]->Record_0.len() == rs.titles.len(),
{
}

/// The rows that are rendered are, whatever the number of groups, the rows
/// of all the groups in the order of the groups.
pub proof fn lemma_shown_rows_in_group_order(rs: ResultSetView)
    ensures
        rs.shown_rows() == concat_rows(rs.groups),
        rs.rendered() == if rs.shown_rows().len() == 0 {
            RenderedView::String(no_data_text())
        } else {
            RenderedView::List(rendered_rows(rs.titles, rs.shown_rows(), rs.hidden))
        },
{
    lemma_concat_rows_small(rs.groups);
}

/// The records of a slice of the rows are the same slice of the records of
/// all the rows: a page is rendered row by row as the whole table is.
pub proof fn lemma_page_is_slice(
    titles: Seq<Seq<char>>,
    rows: Seq<Seq<ValueView>>,
    hidden: nat,
    start: int,
    end: int,
)
    requires
        0 <= start <= end <= rows.len(),
    ensures
        rendered_rows(titles, rows.subrange(start, end), hidden) == rendered_rows(
            titles,
            rows,
            hidden,
        ).subrange(start, end),
{
    assert(rendered_rows(titles, rows.subrange(start, end), hidden) =~= rendered_rows(
        titles,
        rows,
        hidden,
    ).subrange(start, end));
}

} // verus!
