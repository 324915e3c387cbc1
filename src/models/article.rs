use crate::models::user::Profile;
use crate::sanitize::push_char;
use vstd::prelude::*;

verus! {

/// Number of random characters after a slug's title part.
pub const SUFFIX_LEN: usize = 8;

/// An article as handed out: stored fields, aggregated tags, the viewer's
/// `favorited` flag and the author's viewer-relative profile.
#[derive(Debug)]
pub struct Article {
    pub slug: String,
    pub title: String,
    pub description: String,
    pub body: String,
    pub tag_list: Vec<String>,
    pub created_at: i64,
    pub updated_at: i64,
    pub favorited: bool,
    pub favorites_count: i32,
    pub author: Profile,
}

/// A stored article.
#[derive(Debug)]
pub struct PGArticle {
    pub id: i32,
    pub slug: String,
    pub title: String,
    pub description: String,
    pub body: String,
    pub author: i32,
    pub created_at: i64,
    pub updated_at: i64,
    pub favorites_count: i32,
}

/// Article creation input.
#[derive(Debug)]
pub struct NewArticleData {
    pub title: String,
    pub description: String,
    pub body: String,
    pub tag_list: Option<Vec<String>>,
}

/// A partial article update: absent fields are left as they are.
#[derive(Debug)]
pub struct UpdateArticleData {
    pub title: Option<String>,
    pub description: Option<String>,
    pub body: Option<String>,
    pub tag_list: Option<Vec<String>>,
}

/// Tag texts.
#[derive(Debug)]
pub struct TagList(pub Vec<String>);

/// One page of articles, with the number of all articles that matched.
#[derive(Debug)]
pub struct ArticleList {
    pub articles: Vec<Article>,
    pub articles_count: i64,
}

impl PGArticle {
    /// Whether `a` shows this stored article with the given profile, tags
    /// and `favorited` flag.
    pub open spec fn shown_as(
        &self,
        a: Article,
        profile: Profile,
        tags: Seq<String>,
        favorited: bool,
    ) -> bool {
        &&& a.slug == self.slug
        &&& a.title == self.title
        &&& a.description == self.description
        &&& a.body == self.body
        &&& a.tag_list@ == tags
        &&& a.created_at == self.created_at
        &&& a.updated_at == self.updated_at
        &&& a.favorited == favorited
        &&& a.favorites_count == self.favorites_count
        &&& a.author == profile
    }

    pub fn to_article(self, profile: Profile, tag_list: Vec<String>, favorited: bool) -> (a:
        Article)
        ensures
            self.shown_as(a, profile, tag_list@, favorited),
    {
        Article {
            body: self.body,
            slug: self.slug,
            title: self.title,
            description: self.description,
            favorites_count: self.favorites_count,
            created_at: self.created_at,
            updated_at: self.updated_at,
            favorited,
            tag_list,
            author: profile,
        }
    }

    /// A copy of this stored article, equal to it.
    pub fn copy(&self) -> (r: PGArticle)
        ensures
            r == *self,
    {
        PGArticle {
            id: self.id,
            slug: self.slug.clone(),
            title: self.title.clone(),
            description: self.description.clone(),
            body: self.body.clone(),
            author: self.author,
            created_at: self.created_at,
            updated_at: self.updated_at,
            favorites_count: self.favorites_count,
        }
    }
}

/// What `slug::slugify` makes of a title: lower-case ASCII words joined by
/// single hyphens.
pub uninterp spec fn slug_of(title: Seq<char>) -> Seq<char>;

/// Relies on `slug::slugify`: the result depends on the title alone.
#[verifier::external_body]
fn title_slug(title: &str) -> (r: String)
    ensures
        r@ == slug_of(title@),
{
    slug::slugify(title)
}

pub open spec fn is_alphanumeric(c: char) -> bool {
    ('a' <= c <= 'z') || ('A' <= c <= 'Z') || ('0' <= c <= '9')
}

/// Relies on `rand::distributions::Alphanumeric` sampled from the thread's
/// generator: one character of `[A-Za-z0-9]`.
#[verifier::external_body]
fn random_alphanumeric() -> (c: char)
    ensures
        is_alphanumeric(c),
{
    rand::Rng::sample(&mut rand::thread_rng(), rand::distributions::Alphanumeric)
}

/// Whether `s` is a slug for `title`: the title's slug, a hyphen, and
/// `SUFFIX_LEN` random alphanumeric characters.
pub open spec fn is_slug_for(s: Seq<char>, title: Seq<char>) -> bool {
    let n = slug_of(title).len();
    &&& s.len() == n + 1 + SUFFIX_LEN
    &&& s.subrange(0, n as int) == slug_of(title)
    &&& s[n as int] == '-'
    &&& forall|i: int| n + 1 <= i < s.len() ==> is_alphanumeric(#[trigger] s[i])
}

/// A fresh slug for `title`.
pub fn slugify(title: &str) -> (r: String)
    ensures
        is_slug_for(r@, title@),
{
    let mut s = title_slug(title);
    let ghost base = s@;
    push_char(&mut s, '-');
    let mut k: usize = 0;
    while k < SUFFIX_LEN
        invariant
            k <= SUFFIX_LEN,
            base == slug_of(title@),
            s@.len() == base.len() + 1 + k,
            s@.subrange(0, base.len() as int) == base,
            s@[base.len() as int] == '-',
            forall|i: int| base.len() + 1 <= i < s@.len() ==> is_alphanumeric(#[trigger] s@[i]),
        decreases SUFFIX_LEN - k,
    {
        let c = random_alphanumeric();
        let ghost prev = s@;
        push_char(&mut s, c);
        assert(s@.subrange(0, base.len() as int) =~= prev.subrange(0, base.len() as int));
        k = k + 1;
    }
    s
}

} // verus!
