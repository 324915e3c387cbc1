use crate::db::limits::{coerce_limit, coerce_offset, effective_limit, effective_offset};
use vstd::prelude::*;

verus! {

/// A listing query with its page bounds already coerced.
#[derive(Debug)]
pub struct GetArticles {
    pub limit: i32,
    pub offset: i32,
    pub current_user: Option<i32>,
    pub tag: Option<String>,
    pub favorited: Option<String>,
    pub author: Option<String>,
}

/// The listing query for these requested bounds, viewer and filters.
pub fn get_articles(
    limit: Option<i32>,
    offset: Option<i32>,
    current_user: Option<i32>,
    tag: Option<String>,
    favorited: Option<String>,
    author: Option<String>,
) -> (r: GetArticles)
    ensures
        r.limit == effective_limit(limit),
        r.offset == effective_offset(offset),
        r.current_user == current_user,
        r.tag == tag,
        r.favorited == favorited,
        r.author == author,
{
    GetArticles {
        limit: coerce_limit(limit),
        offset: coerce_offset(offset),
        current_user,
        tag,
        favorited,
        author,
    }
}

} // verus!
