use crate::db::limits::{coerce_limit, coerce_offset, effective_limit, effective_offset};
use vstd::prelude::*;

verus! {

/// A feed query with its page bounds already coerced.
#[derive(Debug)]
pub struct UserFeed {
    pub limit: i32,
    pub offset: i32,
    pub user_id: i32,
}

/// The feed query of `user_id` for these requested bounds.
pub fn user_feed_query(limit: Option<i32>, offset: Option<i32>, user_id: i32) -> (r: UserFeed)
    ensures
        r.limit == effective_limit(limit),
        r.offset == effective_offset(offset),
        r.user_id == user_id,
{
    UserFeed { limit: coerce_limit(limit), offset: coerce_offset(offset), user_id }
}

} // verus!
