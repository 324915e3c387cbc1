use vstd::prelude::*;

verus! {

/// A lookup of the comments on one article, as a given user sees them.
#[derive(Debug)]
pub struct GetComments {
    pub slug: String,
    pub user: Option<i32>,
}

pub fn get_comments(user: Option<i32>, slug: String) -> (r: GetComments)
    ensures
        r.slug == slug,
        r.user == user,
{
    GetComments { slug, user }
}

} // verus!
