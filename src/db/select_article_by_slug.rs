use vstd::prelude::*;

verus! {

/// A lookup of one article by slug, as a given user sees it.
#[derive(Debug)]
pub struct SelectArticleBySlug {
    pub slug: String,
    pub current_user: Option<i32>,
}

pub fn select_article_by_slug(current_user: Option<i32>, slug: String) -> (r: SelectArticleBySlug)
    ensures
        r.slug == slug,
        r.current_user == current_user,
{
    SelectArticleBySlug { current_user, slug }
}

} // verus!
