//! The dashboard: the table of short URLs.

use crate::url_store::ShortUrlRow;
use vstd::prelude::*;

verus! {

/// The dashboard page, built from the rows it lists.
#[derive(Debug)]
pub struct DashboardPageBuilder {
    rows: Vec<ShortUrlRow>,
}

impl DashboardPageBuilder {
    /// The rows the page lists, in the order in which it lists them.
    pub closed spec fn listed(&self) -> Seq<ShortUrlRow> {
        self.rows@
    }

    /// A dashboard that lists nothing.
    pub fn new() -> (page: Self)
        ensures
            page.listed() == Seq::<ShortUrlRow>::empty(),
    {
        DashboardPageBuilder { rows: Vec::new() }
    }

    /// The dashboard with `rows` in place of what it listed.
    pub fn set_rows(self, rows: Vec<ShortUrlRow>) -> (page: Self)
        ensures
            page.listed() == rows@,
    {
        let mut page = self;
        page.rows = rows;
        page
    }

    /// The rows the page lists.
    pub fn rows(&self) -> (rows: &Vec<ShortUrlRow>)
        ensures
            rows@ == self.listed(),
    {
        &self.rows
    }
}

/// One row of the table, and whether it is sent on its own, as a fragment to
/// put into a page that is already shown.
pub struct UrlTableRow<'a> {
    data: &'a ShortUrlRow,
    hx: bool,
}

impl<'a> UrlTableRow<'a> {
    /// The record the row shows.
    pub closed spec fn record(&self) -> ShortUrlRow {
        *self.data
    }

    /// Whether the row is sent as a fragment.
    pub closed spec fn as_fragment(&self) -> bool {
        self.hx
    }

    /// The row for `row`, not sent as a fragment.
    pub fn new(row: &'a ShortUrlRow) -> (made: Self)
        ensures
            made.record() == *row,
            !made.as_fragment(),
    {
        UrlTableRow { hx: false, data: row }
    }

    /// The row, sent as a fragment or not as `val` says.
    pub fn is_hx(self, val: bool) -> (made: Self)
        ensures
            made.record() == self.record(),
            made.as_fragment() == val,
    {
        let mut made = self;
        made.hx = val;
        made
    }

    /// The record the row shows.
    pub fn data(&self) -> (row: &'a ShortUrlRow)
        ensures
            *row == self.record(),
    {
        self.data
    }

    /// Whether the row is sent as a fragment.
    pub fn hx(&self) -> (hx: bool)
        ensures
            hx == self.as_fragment(),
    {
        self.hx
    }
}

} // verus!
