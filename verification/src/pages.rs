//! Pages of a longer list, and the cursors that lead from one to the next.

use crate::numbers::{decimal, decimal_string, lemma_decimal_round_trip, parse_usize, parsed_usize};
use crate::text::opt_view;
use vstd::prelude::*;

verus! {

/// How many entries a page has.
pub open spec fn page_size(limit: Option<usize>) -> usize {
    match limit {
        Some(n) => if n < 1 {
            1
        } else if n > 1024 {
            1024
        } else {
            n
        },
        None => 256,
    }
}

pub fn page_size_of(limit: Option<usize>) -> (r: usize)
    ensures
        r == page_size(limit),
{
    match limit {
        Some(n) => if n < 1 {
            1
        } else if n > 1024 {
            1024
        } else {
            n
        },
        None => 256,
    }
}

/// Where a page starts.
pub open spec fn page_offset(cursor: Option<Seq<char>>) -> usize {
    match cursor {
        Some(text) => match parsed_usize(text) {
            Some(n) => n,
            None => 0,
        },
        None => 0,
    }
}

pub fn page_offset_of(cursor: &Option<String>) -> (r: usize)
    ensures
        r == page_offset(opt_view(*cursor)),
{
    match cursor {
        Some(text) => match parse_usize(text.as_str()) {
            Some(n) => n,
            None => 0,
        },
        None => 0,
    }
}

/// The first index of a page.
pub open spec fn page_start(total: int, offset: int) -> int {
    if offset < total {
        offset
    } else {
        total
    }
}

/// The index behind a page.
pub open spec fn page_end(total: int, offset: int, limit: int) -> int {
    if page_start(total, offset) + limit < total {
        page_start(total, offset) + limit
    } else {
        total
    }
}

/// The cursor of the next page, if there is one.
pub open spec fn next_cursor(total: int, offset: int, limit: int) -> Option<Seq<char>> {
    let end = page_end(total, offset, limit);
    if end < total {
        Some(decimal(end as nat))
    } else {
        None
    }
}

/// The first index of a page, and the index behind it.
pub fn page_bounds(total: usize, offset: usize, limit: usize) -> (r: (usize, usize))
    ensures
        r.0 == page_start(total as int, offset as int),
        r.1 == page_end(total as int, offset as int, limit as int),
        r.0 <= r.1 <= total,
{
    let start: usize = if offset < total {
        offset
    } else {
        total
    };
    let end: usize = if total - start <= limit {
        total
    } else {
        start + limit
    };
    (start, end)
}

/// The cursor of a page that starts at `end`, unless that is the end of the list.
pub fn cursor_behind(end: usize, total: usize) -> (r: Option<String>)
    ensures
        opt_view(r) == if end < total {
            Some(decimal(end as nat))
        } else {
            None
        },
{
    if end < total {
        Some(decimal_string(end as u64))
    } else {
        None
    }
}

/// Following the cursors leads through all entries: a page ends where the next one starts,
/// each page that is not the last moves on, and the last one reaches the end.
pub proof fn lemma_pages_follow_each_other(total: int, offset: usize, limit: usize)
    requires
        0 <= total <= usize::MAX,
        limit >= 1,
    ensures
        match next_cursor(total, offset as int, limit as int) {
            Some(cursor) => {
                &&& page_offset(Some(cursor)) == page_end(total, offset as int, limit as int)
                &&& page_start(total, page_offset(Some(cursor)) as int) == page_end(
                    total,
                    offset as int,
                    limit as int,
                )
                &&& page_end(total, offset as int, limit as int) > page_start(
                    total,
                    offset as int,
                )
            },
            None => page_end(total, offset as int, limit as int) == total,
        },
{
    let end = page_end(total, offset as int, limit as int);
    if end < total {
        lemma_decimal_round_trip(end as nat);
    }
}

} // verus!
