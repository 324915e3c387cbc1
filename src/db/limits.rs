use vstd::prelude::*;

verus! {

/// Page size used when the caller gives none.
pub const LIMIT: i32 = 20;

/// Largest page size a listing hands out.
pub const MAX_LIMIT: i32 = 500;

/// The page size a listing uses for a requested `limit`: the default when
/// absent, otherwise the request clamped to `[1, MAX_LIMIT]`.
pub open spec fn effective_limit(limit: Option<i32>) -> int {
    match limit {
        None => LIMIT as int,
        Some(l) => if l < 1 {
            1
        } else if l > MAX_LIMIT {
            MAX_LIMIT as int
        } else {
            l as int
        },
    }
}

/// The number of rows a listing skips for a requested `offset`: zero when
/// absent or negative.
pub open spec fn effective_offset(offset: Option<i32>) -> int {
    match offset {
        None => 0,
        Some(o) => if o < 0 {
            0
        } else {
            o as int
        },
    }
}

pub fn coerce_limit(limit: Option<i32>) -> (r: i32)
    ensures
        r == effective_limit(limit),
        1 <= r <= MAX_LIMIT,
{
    match limit {
        None => LIMIT,
        Some(l) => if l < 1 {
            1
        } else if l > MAX_LIMIT {
            MAX_LIMIT
        } else {
            l
        },
    }
}

pub fn coerce_offset(offset: Option<i32>) -> (r: i32)
    ensures
        r == effective_offset(offset),
        r >= 0,
{
    match offset {
        None => 0,
        Some(o) => if o < 0 {
            0
        } else {
            o
        },
    }
}

} // verus!
