use vstd::prelude::*;

verus! {

/// The number of page buttons shown at once.
pub const WINDOW: u64 = 5;

/// The pages that get a button of their own: up to five, beginning two
/// before the current page.
pub open spec fn spec_page_window(current_page: int, total_pages: int) -> (int, int) {
    let start = if current_page > 2 {
        current_page - 2
    } else {
        0
    };
    let end = if start + WINDOW < total_pages {
        start + WINDOW
    } else {
        total_pages
    };
    (start, end)
}

/// What the row of page buttons shows.
pub struct Pagination {
    /// Whether there is a row at all: not for a single page.
    pub visible: bool,
    /// Whether there is a button to the page before.
    pub previous: bool,
    /// Whether there is a button to the page after.
    pub next: bool,
    /// Whether the first page has a button outside the window.
    pub first: bool,
    /// Whether pages are left out between the first page and the window.
    pub gap_before: bool,
    /// The first page of the window.
    pub start: u64,
    /// The page behind the window.
    pub end: u64,
    /// Whether pages are left out between the window and the last page.
    pub gap_after: bool,
    /// Whether the last page has a button outside the window.
    pub last: bool,
}

/// What the row of page buttons shows for the page `current_page`, counted
/// from 0, of `total_pages`.
pub fn pagination(current_page: u64, total_pages: u64) -> (row: Pagination)
    ensures
        row.visible == (total_pages > 1),
        row.visible ==> {
            &&& (row.start as int, row.end as int) == spec_page_window(
                current_page as int,
                total_pages as int,
            )
            &&& row.previous == (current_page > 0)
            &&& row.next == (current_page < total_pages - 1)
            &&& row.first == (row.start > 0)
            &&& row.gap_before == (row.start > 1)
            &&& row.last == (row.end < total_pages)
            &&& row.gap_after == (row.end < total_pages - 1)
        },
{
    if total_pages <= 1 {
        return Pagination {
            visible: false,
            previous: false,
            next: false,
            first: false,
            gap_before: false,
            start: 0,
            end: 0,
            gap_after: false,
            last: false,
        };
    }
    let start: u64 = if current_page > 2 {
        current_page - 2
    } else {
        0
    };
    let end: u64 = if start < total_pages && total_pages - start > WINDOW {
        start + WINDOW
    } else {
        total_pages
    };
    Pagination {
        visible: true,
        previous: current_page > 0,
        next: current_page < total_pages - 1,
        first: start > 0,
        gap_before: start > 1,
        start,
        end,
        gap_after: end < total_pages - 1,
        last: end < total_pages,
    }
}

} // verus!
