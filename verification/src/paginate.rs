//! Pages: slicing the rows of a group into pages of a fixed size, and the
//! state of a reader who walks through them.

use vstd::prelude::*;

verus! {

/// The number of pages that `rows` rows fill when a page holds `page_size`
/// rows: the quotient, rounded up.
pub open spec fn page_count_of(rows: nat, page_size: nat) -> nat
    recommends
        page_size >= 1,
{
    if rows % page_size == 0 {
        rows / page_size
    } else {
        rows / page_size + 1
    }
}

/// The index of the first row of page `page`, where pages count from 1.
pub open spec fn page_start(page: nat, page_size: nat) -> int {
    (page - 1) * page_size
}

/// The index behind the last row of page `page`: a full page further,
/// but not behind the last row.
pub open spec fn page_end(page: nat, page_size: nat, rows: nat) -> int {
    if page * page_size <= rows {
        (page * page_size) as int
    } else {
        rows as int
    }
}

/// Whether the rows are shown page by page: paging was asked for and one
/// page does not hold all the rows.
pub open spec fn is_paged(pagination: bool, page_size: nat, rows: nat) -> bool {
    pagination && page_size < rows
}

/// Every page of the count starts before the last row, ends behind its
/// start, and the last page ends with the last row.
pub proof fn lemma_pages_cover(rows: nat, page_size: nat, page: nat)
    requires
        page_size >= 1,
        rows >= 1,
        1 <= page <= page_count_of(rows, page_size),
    ensures
        0 <= page_start(page, page_size) < page_end(page, page_size, rows) <= rows,
        page_end(page, page_size, rows) - page_start(page, page_size) <= page_size,
        page < page_count_of(rows, page_size) ==> page_end(page, page_size, rows) == page_start(
            (page + 1) as nat,
            page_size,
        ),
        page == page_count_of(rows, page_size) ==> page_end(page, page_size, rows) == rows,
{
    let q = rows / page_size;
    let m = rows % page_size;
    vstd::arithmetic::div_mod::lemma_fundamental_div_mod(rows as int, page_size as int);
    assert(rows == page_size * q + m);
    let count = page_count_of(rows, page_size);
    assert((page - 1) * page_size + page_size == page * page_size) by (nonlinear_arith);
    assert(0 <= (page - 1) * page_size) by (nonlinear_arith)
        requires
            page >= 1,
            page_size >= 1,
    ;
    if m == 0 {
        assert(page * page_size <= q * page_size) by (nonlinear_arith)
            requires
                page <= q,
                page_size >= 1,
        ;
        assert(q * page_size == page_size * q) by (nonlinear_arith);
    } else {
        if page <= q {
            assert(page * page_size <= q * page_size) by (nonlinear_arith)
                requires
                    page <= q,
                    page_size >= 1,
            ;
            assert(q * page_size == page_size * q) by (nonlinear_arith);
        } else {
            assert(page == q + 1);
            assert((page - 1) * page_size == page_size * q) by (nonlinear_arith)
                requires
                    page == q + 1,
            ;
        }
    }
}

/// The number of pages that `rows` rows fill.
pub fn page_count(rows: usize, page_size: usize) -> (count: usize)
    requires
        page_size >= 1,
    ensures
        count == page_count_of(rows as nat, page_size as nat),
{
    if rows % page_size == 0 {
        rows / page_size
    } else {
        proof {
            vstd::arithmetic::div_mod::lemma_fundamental_div_mod(rows as int, page_size as int);
            assert(rows / page_size < rows) by (nonlinear_arith)
                requires
                    rows as int == page_size * (rows / page_size) + rows % page_size,
                    rows % page_size >= 1,
                    page_size >= 1,
                    rows / page_size >= 0,
            ;
        }
        rows / page_size + 1
    }
}

/// Whether the rows are shown page by page.
pub fn needs_pages(pagination: bool, page_size: usize, rows: usize) -> (b: bool)
    ensures
        b == is_paged(pagination, page_size as nat, rows as nat),
{
    pagination && page_size < rows
}

/// What the reader of a paged table typed.
#[derive(Clone, Copy, Debug, PartialEq, Eq, Structural)]
pub enum PageInput {
    Next,
    Previous,
    Quit,
}

/// What follows from the reader's input.
#[derive(Clone, Copy, Debug, PartialEq, Eq, Structural)]
pub enum PageEvent {
    /// The page changed: show the current page.
    Show,
    /// The reader asked for the page behind the last one; nothing changed.
    AlreadyLast,
    /// The reader asked for the page before the first one; nothing changed.
    AlreadyFirst,
    /// The reader is done.
    Quit,
}

/// Which inputs the prompt of the current page offers.
#[derive(Clone, Copy, Debug, PartialEq, Eq, Structural)]
pub enum PagePrompt {
    NextOrQuit,
    PreviousOrQuit,
    NextPreviousOrQuit,
}

/// The state of a reader: the page that is shown, among the pages of a
/// table.
#[derive(Clone, Copy, Debug, PartialEq, Eq)]
pub struct Pager {
    rows: usize,
    page_size: usize,
    current: usize,
}

/// The model of a [`Pager`].
pub struct PagerView {
    pub rows: nat,
    pub page_size: nat,
    pub current: nat,
}

impl PagerView {
    /// The number of pages.
    pub open spec fn page_count(self) -> nat {
        page_count_of(self.rows, self.page_size)
    }

    /// The invariant of a pager: there is a row, a page holds at least one,
    /// and the current page is one of the pages, counted from 1.
    pub open spec fn wf(self) -> bool {
        &&& self.page_size >= 1
        &&& self.rows >= 1
        &&& 1 <= self.current <= self.page_count()
    }

    /// The state after an input: the next page unless the last one is
    /// shown, the previous page unless the first one is shown, and the same
    /// page on quitting.
    pub open spec fn after(self, input: PageInput) -> PagerView {
        match input {
            PageInput::Next => if self.current < self.page_count() {
                PagerView { current: self.current + 1, ..self }
            } else {
                self
            },
            PageInput::Previous => if self.current > 1 {
                PagerView { current: (self.current - 1) as nat, ..self }
            } else {
                self
            },
            PageInput::Quit => self,
        }
    }

    /// What an input gives in this state.
    pub open spec fn event(self, input: PageInput) -> PageEvent {
        match input {
            PageInput::Next => if self.current < self.page_count() {
                PageEvent::Show
            } else {
                PageEvent::AlreadyLast
            },
            PageInput::Previous => if self.current > 1 {
                PageEvent::Show
            } else {
                PageEvent::AlreadyFirst
            },
            PageInput::Quit => PageEvent::Quit,
        }
    }
}

impl View for Pager {
    type V = PagerView;

    closed spec fn view(&self) -> PagerView {
        PagerView {
            rows: self.rows as nat,
            page_size: self.page_size as nat,
            current: self.current as nat,
        }
    }
}

impl Pager {
    #[verifier::type_invariant]
    spec fn inv(self) -> bool {
        self@.wf()
    }

    /// A pager on the first page of `rows` rows, with `page_size` rows on a
    /// page.
    pub fn new(rows: usize, page_size: usize) -> (pager: Pager)
        requires
            page_size >= 1,
            rows >= 1,
        ensures
            pager@ == (PagerView { rows: rows as nat, page_size: page_size as nat, current: 1 }),
            pager@.wf(),
    {
        proof {
            vstd::arithmetic::div_mod::lemma_fundamental_div_mod(rows as int, page_size as int);
            if rows % page_size == 0 {
                assert(rows / page_size >= 1) by (nonlinear_arith)
                    requires
                        rows as int == page_size * (rows / page_size),
                        rows >= 1,
                        page_size >= 1,
                ;
            } else {
                assert(rows / page_size >= 0) by (nonlinear_arith)
                    requires
                        rows >= 1,
                        page_size >= 1,
                ;
            }
        }
        Pager { rows, page_size, current: 1 }
    }

    /// The number of pages.
    pub fn page_count(&self) -> (count: usize)
        ensures
            count == self@.page_count(),
            self@.wf(),
    {
        proof {
            use_type_invariant(self);
        }
        page_count(self.rows, self.page_size)
    }

    /// The page that is shown, counted from 1.
    pub fn current_page(&self) -> (page: usize)
        ensures
            page == self@.current,
            self@.wf(),
    {
        proof {
            use_type_invariant(self);
        }
        self.current
    }

    /// The rows of the page that is shown: from the first index up to the
    /// second.
    pub fn bounds(&self) -> (range: (usize, usize))
        ensures
            self@.wf(),
            range.0 == page_start(self@.current, self@.page_size),
            range.1 == page_end(self@.current, self@.page_size, self@.rows),
            range.0 < range.1 <= self@.rows,
    {
        proof {
            use_type_invariant(self);
            lemma_pages_cover(self.rows as nat, self.page_size as nat, self.current as nat);
            assert((self.current - 1) * self.page_size + self.page_size == self.current
                * self.page_size) by (nonlinear_arith);
        }
        let start = (self.current - 1) * self.page_size;
        let end = if self.rows - start < self.page_size {
            self.rows
        } else {
            start + self.page_size
        };
        (start, end)
    }

    /// Which inputs the prompt offers: no way back on the first page, no way
    /// on on the last.
    pub fn prompt(&self) -> (prompt: PagePrompt)
        ensures
            self@.wf(),
            prompt == if self@.current < 2 {
                PagePrompt::NextOrQuit
            } else if self@.current == self@.page_count() {
                PagePrompt::PreviousOrQuit
            } else {
                PagePrompt::NextPreviousOrQuit
            },
    {
        proof {
            use_type_invariant(self);
        }
        if self.current < 2 {
            PagePrompt::NextOrQuit
        } else if self.current == page_count(self.rows, self.page_size) {
            PagePrompt::PreviousOrQuit
        } else {
            PagePrompt::NextPreviousOrQuit
        }
    }

    /// Takes one input of the reader: moves to the next or the previous page
    /// where there is one, and says what happened.
    pub fn advance(&mut self, input: PageInput) -> (event: PageEvent)
        ensures
            old(self)@.wf(),
            final(self)@ == old(self)@.after(input),
            final(self)@.wf(),
            event == old(self)@.event(input),
    {
        proof {
            use_type_invariant(&*self);
        }
        match input {
            PageInput::Next => {
                if self.current < page_count(self.rows, self.page_size) {
                    self.current = self.current + 1;
                    PageEvent::Show
                } else {
                    PageEvent::AlreadyLast
                }
            },
            PageInput::Previous => {
                if self.current > 1 {
                    self.current = self.current - 1;
                    PageEvent::Show
                } else {
                    PageEvent::AlreadyFirst
                }
            },
            PageInput::Quit => PageEvent::Quit,
        }
    }
}

/// Reads the reader's input, given without the white space around it: `n`
/// for the next page, `p` for the previous page, `q` to quit, and nothing
/// else.
pub fn parse_page_input(word: &str) -> (input: Option<PageInput>)
    ensures
        input == if word@ == seq!['n'] {
            Some(PageInput::Next)
        } else if word@ == seq!['p'] {
            Some(PageInput::Previous)
        } else if word@ == seq!['q'] {
            Some(PageInput::Quit)
        } else {
            None
        },
{
    if word.unicode_len() != 1 {
        return None;
    }
    let c = word.get_char(0);
    assert(word@ =~= seq![c]);
    if c == 'n' {
        Some(PageInput::Next)
    } else if c == 'p' {
        Some(PageInput::Previous)
    } else if c == 'q' {
        Some(PageInput::Quit)
    } else {
        None
    }
}

/// Advancing on the last page, and going back on the first, changes nothing.
pub proof fn lemma_no_page_beyond(pager: PagerView)
    requires
        pager.wf(),
    ensures
        pager.current == pager.page_count() ==> pager.after(PageInput::Next) == pager
            && pager.event(PageInput::Next) == PageEvent::AlreadyLast,
        pager.current == 1 ==> pager.after(PageInput::Previous) == pager && pager.event(
            PageInput::Previous,
        ) == PageEvent::AlreadyFirst,
        pager.after(PageInput::Quit) == pager,
{
}

/// Every row lies on exactly one page: the page that its index, divided by
/// the page size, names.
pub proof fn lemma_row_on_one_page(rows: nat, page_size: nat, row: nat, page: nat)
    requires
        page_size >= 1,
        row < rows,
        1 <= page <= page_count_of(rows, page_size),
    ensures
        1 <= row / page_size + 1 <= page_count_of(rows, page_size),
        (page_start(page, page_size) <= row < page_end(page, page_size, rows)) <==> page == row
            / page_size + 1,
{
    let q = row / page_size;
    vstd::arithmetic::div_mod::lemma_fundamental_div_mod(row as int, page_size as int);
    vstd::arithmetic::div_mod::lemma_fundamental_div_mod(rows as int, page_size as int);
    lemma_pages_cover(rows, page_size, page);
    assert(row == page_size * q + row % page_size);
    assert(0 <= q) by (nonlinear_arith)
        requires
            q == row / page_size,
            page_size >= 1,
            row >= 0,
    ;
    assert(q + 1 <= page_count_of(rows, page_size)) by {
        let total = rows / page_size;
        assert(rows == page_size * total + rows % page_size);
        assert(q <= total) by (nonlinear_arith)
            requires
                page_size * q <= row,
                row < rows,
                rows < page_size * total + page_size,
                page_size >= 1,
        ;
        if rows % page_size == 0 {
            assert(q < total) by (nonlinear_arith)
                requires
                    page_size * q <= row,
                    row < rows,
                    rows == page_size * total,
                    page_size >= 1,
            ;
        }
    }
    if page_start(page, page_size) <= row < page_end(page, page_size, rows) {
        assert(page == q + 1) by (nonlinear_arith)
            requires
                (page - 1) * page_size <= row,
                row < page * page_size,
                row == page_size * q + row % page_size,
                0 <= row % page_size < page_size,
                page_size >= 1,
        ;
    }
    if page == q + 1 {
        assert((page - 1) * page_size == page_size * q) by (nonlinear_arith)
            requires
                page == q + 1,
        ;
        assert(page * page_size == page_size * q + page_size) by (nonlinear_arith)
            requires
                page == q + 1,
        ;
    }
}

} // verus!
