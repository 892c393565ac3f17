//! Result windows of presence queries: query offsets and limits as ranges,
//! and ranges as SQL offset/limit pairs.

use vstd::prelude::*;

verus! {

/// The window `[offset, offset + limit)` described by optional query parameters.
/// A missing offset starts at zero; a missing limit runs to `u32::MAX`.
pub open spec fn spec_range_from(offset: Option<u32>, limit: Option<u32>) -> (u32, u32) {
    let start: u32 = match offset {
        Some(o) => o,
        None => 0,
    };
    let end: int = match limit {
        Some(l) => start + l,
        None => u32::MAX as int,
    };
    (start, end as u32)
}

/// Turns optional offset and limit query parameters into a half-open range.
pub fn range_from(offset: Option<u32>, limit: Option<u32>) -> (r: std::ops::Range<u32>)
    requires
        limit is Some && offset is Some ==> offset->0 + limit->0 <= u32::MAX,
    ensures
        (r.start, r.end) == spec_range_from(offset, limit),
{
    let start: u32 = match offset {
        Some(o) => o,
        None => 0,
    };
    let end: u32 = match limit {
        Some(l) => start + l,
        None => u32::MAX,
    };
    std::ops::Range { start, end }
}

/// The SQL offset and limit that select the window `range`. With `reserve_first` the
/// first slot of the window is held back for an entry that the caller puts in front,
/// so the query starts one row earlier (never below zero) and returns one row less.
pub open spec fn spec_offset_limit(start: int, end: int, reserve_first: bool) -> (int, int) {
    if reserve_first {
        (if start - 1 > 0 { start - 1 } else { 0 }, end - start - 1)
    } else {
        (start, end - start)
    }
}

/// Turns a window of result rows into an SQL offset/limit pair.
pub fn range_to_sql_offset_limit(range: std::ops::Range<i32>, reserve_first: bool) -> (r: (i32, i32))
    requires
        i32::MIN <= range.end - range.start - (if reserve_first { 1int } else { 0int }) <= i32::MAX,
    ensures
        (r.0 as int, r.1 as int) == spec_offset_limit(range.start as int, range.end as int, reserve_first),
{
    let offset: i32;
    let limit: i32;
    if reserve_first {
        offset = if range.start > 1 { range.start - 1 } else { 0 };
        limit = (range.end as i64 - range.start as i64 - 1) as i32;
    } else {
        offset = range.start;
        limit = range.end - range.start;
    }
    (offset, limit)
}

} // verus!
