//! Result sets: groups of rows under shared column titles.

use vstd::prelude::*;
use crate::value::{models, TypedValue, ValueView};

verus! {

/// One row: a value for each hidden column, then one for each title.
#[derive(Debug, PartialEq)]
pub struct Row {
    pub values: Vec<TypedValue>,
}

/// A batch of rows.
#[derive(Debug, PartialEq)]
pub struct Group {
    pub rows: Vec<Row>,
}

/// What a query returns: the titles of the visible columns, the number of
/// hidden columns that lead each row, and the groups of rows.
#[derive(Debug, PartialEq)]
pub struct ResultSet {
    pub titles: Vec<String>,
    pub groups: Vec<Group>,
    pub hidden: usize,
}

/// The model of a result set.
pub struct ResultSetView {
    pub titles: Seq<Seq<char>>,
    pub groups: Seq<Seq<Seq<ValueView>>>,
    pub hidden: nat,
}

impl View for Row {
    type V = Seq<ValueView>;

    open spec fn view(&self) -> Seq<ValueView> {
        models(self.values@)
    }
}

/// The models of a sequence of rows, in order.
pub open spec fn row_views(rows: Seq<Row>) -> Seq<Seq<ValueView>> {
    Seq::new(rows.len(), |i: int| rows[i]@)
}

impl View for Group {
    type V = Seq<Seq<ValueView>>;

    open spec fn view(&self) -> Seq<Seq<ValueView>> {
        row_views(self.rows@)
    }
}

/// The models of a sequence of groups, in order.
pub open spec fn group_views(groups: Seq<Group>) -> Seq<Seq<Seq<ValueView>>> {
    Seq::new(groups.len(), |i: int| groups[i]@)
}

/// The titles as sequences of characters, in order.
pub open spec fn title_views(titles: Seq<String>) -> Seq<Seq<char>> {
    Seq::new(titles.len(), |i: int| titles[i]@)
}

impl View for ResultSet {
    type V = ResultSetView;

    open spec fn view(&self) -> ResultSetView {
        ResultSetView {
            titles: title_views(self.titles@),
            groups: group_views(self.groups@),
            hidden: self.hidden as nat,
        }
    }
}

/// The rows of all the groups, one group after the other.
pub open spec fn concat_rows<A>(groups: Seq<Seq<A>>) -> Seq<A>
    decreases groups.len(),
{
    if groups.len() == 0 {
        Seq::empty()
    } else {
        concat_rows(groups.drop_last()) + groups.last()
    }
}

impl ResultSetView {
    /// The invariant of the data model: each row holds a value for every
    /// hidden column and every title, and each value is well formed.
    pub open spec fn wf(self) -> bool {
        forall|g: int, r: int|
            0 <= g < self.groups.len() && 0 <= r < self.groups[g].len() ==> self.row_wf(
                #[trigger] self.groups[g][r],
            )
    }

    /// The invariant of one row of this result set.
    pub open spec fn row_wf(self, row: Seq<ValueView>) -> bool {
        &&& row.len() == self.hidden + self.titles.len()
        &&& forall|c: int| 0 <= c < row.len() ==> (#[trigger] row[c]).wf()
    }

    /// The result set with its groups collapsed into one, which holds the
    /// rows of all of them in their order; titles and hidden columns stay.
    pub open spec fn flattened(self) -> ResultSetView {
        ResultSetView {
            titles: self.titles,
            groups: seq![concat_rows(self.groups)],
            hidden: self.hidden,
        }
    }
}

/// A row of the concatenation is a row of one of the groups.
pub proof fn lemma_concat_rows_member<A>(groups: Seq<Seq<A>>, k: int)
    requires
        0 <= k < concat_rows(groups).len(),
    ensures
        exists|g: int, r: int|
            0 <= g < groups.len() && 0 <= r < groups[g].len() && concat_rows(groups)[k]
                == #[trigger] groups[g][r],
    decreases groups.len(),
{
    if groups.len() > 0 {
        let front = concat_rows(groups.drop_last());
        if k < front.len() {
            lemma_concat_rows_member(groups.drop_last(), k);
            let (g, r) = choose|g: int, r: int|
                0 <= g < groups.drop_last().len() && 0 <= r < groups.drop_last()[g].len()
                    && front[k] == #[trigger] groups.drop_last()[g][r];
            assert(groups.drop_last()[g] == groups[g]);
            assert(concat_rows(groups)[k] == groups[g][r]);
        } else {
            let g = groups.len() - 1;
            let r = k - front.len();
            assert(concat_rows(groups)[k] == groups[g][r]);
        }
    }
}

/// The concatenation of a single group is that group, and of no group is
/// empty.
pub proof fn lemma_concat_rows_small<A>(groups: Seq<Seq<A>>)
    ensures
        groups.len() == 0 ==> concat_rows(groups) == Seq::<A>::empty(),
        groups.len() == 1 ==> concat_rows(groups) == groups[0],
{
    if groups.len() == 1 {
        assert(groups.drop_last().len() == 0);
        assert(concat_rows(groups.drop_last()) =~= Seq::<A>::empty());
        assert(concat_rows(groups) =~= groups[0]);
    }
}

/// Flattening keeps the invariant of the data model.
pub proof fn lemma_flattened_wf(rs: ResultSetView)
    requires
        rs.wf(),
    ensures
        rs.flattened().wf(),
{
    let flat = rs.flattened();
    assert forall|g: int, r: int|
        0 <= g < flat.groups.len() && 0 <= r < flat.groups[g].len() implies flat.row_wf(
        #[trigger] flat.groups[g][r],
    ) by {
        lemma_concat_rows_member(rs.groups, r);
        let (g0, r0) = choose|g0: int, r0: int|
            0 <= g0 < rs.groups.len() && 0 <= r0 < rs.groups[g0].len() && concat_rows(
                rs.groups,
            )[r] == #[trigger] rs.groups[g0][r0];
        assert(rs.row_wf(rs.groups[g0][r0]));
    }
}

impl Group {
    /// Whether the group has no rows.
    pub fn is_empty(&self) -> (b: bool)
        ensures
            b == (self@.len() == 0),
    {
        self.rows.len() == 0
    }

    /// The number of rows.
    pub fn len(&self) -> (n: usize)
        ensures
            n == self@.len(),
    {
        self.rows.len()
    }
}

impl ResultSet {
    /// Whether there is no group.
    pub fn is_empty(&self) -> (b: bool)
        ensures
            b == (self@.groups.len() == 0),
    {
        self.groups.len() == 0
    }

    /// The number of groups.
    pub fn len(&self) -> (n: usize)
        ensures
            n == self@.groups.len(),
    {
        self.groups.len()
    }

    /// Collapses the groups into one group that holds the rows of all of
    /// them, in the order of the groups. Titles and hidden columns stay.
    pub fn flat(&mut self)
        ensures
            final(self)@ == old(self)@.flattened(),
            old(self)@.wf() ==> final(self)@.wf(),
    {
        let ghost before = self@;
        let mut groups: Vec<Group> = Vec::new();
        core::mem::swap(&mut self.groups, &mut groups);
        let ghost taken = groups@;
        let mut rows: Vec<Row> = Vec::new();
        let mut i: usize = 0;
        while i < groups.len()
            invariant
                i <= groups@.len(),
                groups@.len() == taken.len(),
                forall|j: int| i <= j < taken.len() ==> groups@[j] == taken[j],
                row_views(rows@) == concat_rows(group_views(taken).take(i as int)),
            decreases groups.len() - i,
        {
            let ghost rows_before = rows@;
            let mut group = Group { rows: Vec::new() };
            core::mem::swap(&mut groups[i], &mut group);
            rows.append(&mut group.rows);
            proof {
                let views = group_views(taken);
                let next = views.take(i + 1);
                assert(next.drop_last() =~= views.take(i as int));
                assert(next.last() == taken[i as int]@);
                assert(row_views(rows@) =~= row_views(rows_before) + taken[i as int]@);
            }
            i = i + 1;
        }
        proof {
            assert(group_views(taken).take(taken.len() as int) =~= group_views(taken));
        }
        self.groups.push(Group { rows });
        proof {
            assert(self@.groups =~= seq![concat_rows(before.groups)]);
            assert(self@.titles == before.titles);
            if before.wf() {
                lemma_flattened_wf(before);
            }
        }
    }
}

} // verus!
