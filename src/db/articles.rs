use crate::db::get_articles::{get_articles, GetArticles};
use crate::db::limits::{effective_limit, effective_offset};
use crate::db::select_article_by_slug::select_article_by_slug;
use crate::db::user_feed::{user_feed_query, UserFeed};
use crate::db::store::{
    fav_count, find_pair, has_pair, has_text, lemma_article_ids_kept, lemma_fav_count_push, lemma_fav_count_remove,
    lemma_has_text_push, lemma_newest_first_ordered, lemma_tag_names_has, lemma_tag_names_distinct, lemma_tag_names_more_tags, lemma_tag_names_none,
    newest_first, page_end, page_start, tag_names, with_count, Store,
};
use crate::errors::{DbResult, Error};
use crate::models::comment::CommentQuery;
use crate::models::article::{
    is_slug_for, slugify, Article, ArticleList, NewArticleData, PGArticle, TagList,
    UpdateArticleData,
};
use crate::sanitize::{clean, cleaned};
use vstd::prelude::*;
use vstd::string::StringExecFns;

verus! {

/// Which articles a listing walks through.
pub(crate) enum Selection {
    /// Those passing the optional tag, author and favoriter filters.
    Filters { tag: Option<String>, author: Option<String>, favorited: Option<String> },
    /// Those by an author that the given user follows.
    FeedOf(i32),
}

impl Store {
    pub(crate) open spec fn selects(self, sel: Selection, a: PGArticle) -> bool {
        match sel {
            Selection::Filters { tag, author, favorited } => self.listed(a, tag, author, favorited),
            Selection::FeedOf(uid) => self.followings@.contains((uid, a.author)),
        }
    }

    pub(crate) open spec fn selection(self, sel: Selection) -> Seq<PGArticle> {
        newest_first(self.articles@, |a: PGArticle| self.selects(sel, a))
    }

    fn tagged(&self, aid: i32, t: &String) -> (r: bool)
        requires
            self.wf(),
        ensures
            r == self.has_tag(aid, t@),
    {
        let mut k: usize = 0;
        while k < self.article_tags.len()
            invariant
                self.wf(),
                k <= self.article_tags@.len(),
                forall|j: int|
                    0 <= j < k ==> !((#[trigger] self.article_tags@[j]).0 == aid
                        && self.tags@[self.article_tags@[j].1 - 1].tag@ == t@),
            decreases self.article_tags@.len() - k,
        {
            let p = self.article_tags[k];
            if p.0 == aid && self.tags[(p.1 - 1) as usize].tag == *t {
                return true;
            }
            k = k + 1;
        }
        false
    }

    fn favorited_by(&self, aid: i32, name: &String) -> (r: bool)
        requires
            self.wf(),
        ensures
            r == self.favorited_by_name(aid, name@),
    {
        let mut k: usize = 0;
        while k < self.favorites.len()
            invariant
                self.wf(),
                k <= self.favorites@.len(),
                forall|j: int|
                    0 <= j < k ==> !((#[trigger] self.favorites@[j]).1 == aid && self.user(
                        self.favorites@[j].0,
                    ).username@ == name@),
            decreases self.favorites@.len() - k,
        {
            let p = self.favorites[k];
            if p.1 == aid && self.users[(p.0 - 1) as usize].username == *name {
                return true;
            }
            k = k + 1;
        }
        false
    }

    fn selected(&self, sel: &Selection, i: usize) -> (r: bool)
        requires
            self.wf(),
            i < self.articles@.len(),
        ensures
            r == self.selects(*sel, self.articles@[i as int]),
    {
        let a = &self.articles[i];
        match sel {
            Selection::Filters { tag, author, favorited } => {
                let by_tag = match tag {
                    Some(t) => self.tagged(a.id, t),
                    None => true,
                };
                let by_author = match author {
                    Some(n) => self.users[(a.author - 1) as usize].username == *n,
                    None => true,
                };
                let by_favoriter = match favorited {
                    Some(n) => self.favorited_by(a.id, n),
                    None => true,
                };
                by_tag && by_author && by_favoriter
            },
            Selection::FeedOf(uid) => has_pair(&self.followings, (*uid, a.author)),
        }
    }

    /// Indices of the selected articles, newest first.
    fn select_newest(&self, sel: &Selection) -> (r: Vec<usize>)
        requires
            self.wf(),
        ensures
            r@.len() == self.selection(*sel).len(),
            r@.len() <= self.articles@.len(),
            forall|j: int|
                0 <= j < r@.len() ==> r@[j] < self.articles@.len() && self.articles@[#[trigger] r@[j] as int]
                    == self.selection(*sel)[j],
    {
        let ghost keep = |a: PGArticle| self.selects(*sel, a);
        let ghost rows = self.articles@;
        let mut r: Vec<usize> = Vec::new();
        let mut i: usize = self.articles.len();
        assert(rows.subrange(i as int, rows.len() as int) =~= seq![]);
        while i > 0
            invariant
                self.wf(),
                rows == self.articles@,
                keep == (|a: PGArticle| self.selects(*sel, a)),
                i <= rows.len(),
                r@.len() == newest_first(rows.subrange(i as int, rows.len() as int), keep).len(),
                r@.len() <= rows.len() - i,
                forall|j: int|
                    0 <= j < r@.len() ==> r@[j] < rows.len() && rows[#[trigger] r@[j] as int]
                        == newest_first(rows.subrange(i as int, rows.len() as int), keep)[j],
            decreases i,
        {
            let ghost tail = rows.subrange(i as int, rows.len() as int);
            let ghost ext = rows.subrange(i - 1, rows.len() as int);
            assert(ext.subrange(1, ext.len() as int) =~= tail);
            assert(ext[0] == rows[i - 1]);
            if self.selected(sel, i - 1) {
                r.push(i - 1);
            }
            i = i - 1;
        }
        assert(rows.subrange(0, rows.len() as int) =~= rows);
        r
    }

    /// The page of the selected articles that `offset` and `limit` pick.
    fn page_of(&self, sel: &Selection, off: i32, lim: i32, viewer: Option<i32>) -> (r: ArticleList)
        requires
            self.wf(),
            off >= 0,
            lim >= 1,
        ensures
            self.is_page(r, self.selection(*sel), off as int, lim as int, viewer),
    {
        let idx = self.select_newest(sel);
        let ghost rows = self.selection(*sel);
        let start: usize = if (off as usize) < idx.len() {
            off as usize
        } else {
            idx.len()
        };
        let end: usize = if start + (lim as usize) < idx.len() {
            start + lim as usize
        } else {
            idx.len()
        };
        let mut out = Vec::new();
        let mut j: usize = start;
        while j < end
            invariant
                self.wf(),
                rows == self.selection(*sel),
                idx@.len() == rows.len(),
                idx@.len() <= self.articles@.len(),
                forall|q: int|
                    0 <= q < idx@.len() ==> idx@[q] < self.articles@.len() && self.articles@[#[trigger] idx@[q] as int]
                        == rows[q],
                start == page_start(rows.len() as int, off as int),
                end == page_end(rows.len() as int, off as int, lim as int),
                start <= j <= end,
                end <= idx@.len(),
                out@.len() == j - start,
                forall|q: int|
                    0 <= q < out@.len() ==> self.shows(#[trigger] out@[q], rows[start + q], viewer),
            decreases end - j,
        {
            let v = self.view_article(idx[j], viewer);
            out.push(v);
            j = j + 1;
        }
        ArticleList { articles: out, articles_count: idx.len() as i64 }
    }
}

/// Runs a listing query: one page of the articles that pass its filters,
/// newest first, as its user sees them, with the number of all that passed.
pub fn load_articles(store: &Store, q: &GetArticles) -> (r: ArticleList)
    requires
        store.wf(),
        q.offset >= 0,
        q.limit >= 1,
    ensures
        store.is_page(r, store.listing(q.tag, q.author, q.favorited), q.offset as int, q.limit as int, q.current_user),
{
    let s = Selection::Filters { tag: q.tag.clone(), author: q.author.clone(), favorited: q.favorited.clone() };
    assert((|a: PGArticle| store.selects(s, a)) =~= (|a: PGArticle|
        store.listed(a, q.tag, q.author, q.favorited)));
    store.page_of(&s, q.offset, q.limit, q.current_user)
}

/// One page of the articles that pass the optional tag, author and favoriter
/// filters, newest first, as `current_user` sees them, with the number of all
/// articles that passed. The page holds at most `coerce_limit(limit)` articles
/// and skips `coerce_offset(offset)`, which is never negative.
pub fn articles(
    store: &Store,
    tag: Option<String>,
    author: Option<String>,
    offset: Option<i32>,
    limit: Option<i32>,
    favorited: Option<String>,
    current_user: Option<i32>,
) -> (r: DbResult<ArticleList>)
    requires
        store.wf(),
    ensures
        r matches Ok(list) && store.is_page(
            list,
            store.listing(tag, author, favorited),
            effective_offset(offset),
            effective_limit(limit),
            current_user,
        ),
        r matches Ok(list) && list.articles@.len() <= effective_limit(limit),
        effective_offset(offset) >= 0,
{
    let q = get_articles(limit, offset, current_user, tag, favorited, author);
    Ok(load_articles(store, &q))
}

/// Runs a feed query: one page of the articles by authors its user follows,
/// newest first, as that user sees them, with the number of all such articles.
pub fn load_feed(store: &Store, q: &UserFeed) -> (r: ArticleList)
    requires
        store.wf(),
        q.offset >= 0,
        q.limit >= 1,
    ensures
        store.is_page(r, store.feed(q.user_id), q.offset as int, q.limit as int, Some(q.user_id)),
{
    let s = Selection::FeedOf(q.user_id);
    assert((|a: PGArticle| store.selects(s, a)) =~= (|a: PGArticle|
        store.followings@.contains((q.user_id, a.author))));
    store.page_of(&s, q.offset, q.limit, Some(q.user_id))
}

/// One page of `user_id`'s feed: the articles of authors `user_id` follows,
/// newest first, as `user_id` sees them, with the number of all such articles.
/// A user who follows nobody gets an empty page.
pub fn user_feed(store: &Store, user_id: i32, limit: Option<i32>, offset: Option<i32>) -> (r: DbResult<ArticleList>)
    requires
        store.wf(),
    ensures
        r matches Ok(list) && store.is_page(
            list,
            store.feed(user_id),
            effective_offset(offset),
            effective_limit(limit),
            Some(user_id),
        ),
{
    let q = user_feed_query(limit, offset, user_id);
    Ok(load_feed(store, &q))
}

/// The article with this slug as `current_user` sees it.
pub fn article(store: &Store, current_user: Option<i32>, search: &String) -> (r: DbResult<Article>)
    requires
        store.wf(),
    ensures
        r is Ok <==> store.slug_taken(search@),
        r matches Ok(v) ==> store.shows_slug(v, search@, current_user),
        r matches Err(e) ==> e is NotFound,
{
    get_by_slug(store, current_user, search)
}

fn get_by_slug(store: &Store, current_user: Option<i32>, search: &String) -> (r: DbResult<Article>)
    requires
        store.wf(),
    ensures
        r is Ok <==> store.slug_taken(search@),
        r matches Ok(v) ==> store.shows_slug(v, search@, current_user),
        r matches Err(e) ==> e is NotFound,
{
    let q = select_article_by_slug(current_user, search.clone());
    match store.find_slug(&q.slug) {
        Some(i) => Ok(store.view_article(i, q.current_user)),
        None => Err(Error::NotFound),
    }
}

impl Store {
    /// Whether user `u` may favorite the article with this slug: the article
    /// and the user exist, the edge does not, and the counter has room.
    pub open(crate) spec fn can_favorite(self, u: i32, slug: Seq<char>) -> bool {
        exists|i: int|
            0 <= i < self.articles@.len() && (#[trigger] self.articles@[i]).slug@ == slug && {
                let a = self.articles@[i];
                &&& self.valid_user(u)
                &&& !self.favorites@.contains((u, a.id))
                &&& a.favorites_count < i32::MAX
            }
    }

    /// Whether user `u` may unfavorite the article with this slug: the edge exists.
    pub open(crate) spec fn can_unfavorite(self, u: i32, slug: Seq<char>) -> bool {
        exists|i: int|
            0 <= i < self.articles@.len() && (#[trigger] self.articles@[i]).slug@ == slug
                && self.favorites@.contains((u, self.articles@[i].id))
    }
}

/// User `favoriter` favorites the article with slug `fav`: the edge is added
/// and the article's counter goes up by one, in one step. Returns the article
/// as `favoriter` now sees it. Fails with `NotFound` for an unknown slug, with
/// `Conflict` for an unknown user or an edge that already exists (a repeated
/// favorite never counts twice), with `InternalServerError` when the counter is
/// at its largest; a failure leaves the store unchanged.
pub fn favorite(store: &mut Store, favoriter: i32, fav: &String) -> (r: DbResult<Article>)
    requires
        old(store).wf(),
    ensures
        final(store).wf(),
        r is Ok <==> old(store).can_favorite(favoriter, fav@),
        r matches Ok(v) ==> old(store).favorite_applied(*final(store), favoriter, fav@)
            && final(store).shows_slug(v, fav@, Some(favoriter)),
        r is Err ==> *final(store) == *old(store),
        r matches Err(e) ==> (e is NotFound <==> !old(store).slug_taken(fav@)),
{
    let i = match store.find_slug(fav) {
        Some(i) => i,
        None => { return Err(Error::NotFound); },
    };
    let aid = store.articles[i].id;
    if favoriter < 1 || favoriter as usize > store.users.len() || has_pair(&store.favorites, (favoriter, aid)) {
        return Err(Error::Conflict(String::from_str("favorites"), String::from_str("user_id, article_id")));
    }
    if store.articles[i].favorites_count == i32::MAX {
        return Err(Error::InternalServerError(String::from_str("article"), String::from_str("favorites_count update failed")));
    }
    let ghost old_store = *store;
    let mut row = store.articles[i].copy();
    row.favorites_count = row.favorites_count + 1;
    store.favorites.push((favoriter, aid));
    store.articles.set(i, row);
    proof {
        let a = old_store.articles@[i as int];
        assert(row == with_count(a, a.favorites_count + 1));
        assert(old_store.favorite_applied(*store, favoriter, fav@));
        favorite_preserves_wf(old_store, *store, favoriter, fav@);
    }
    Ok(store.view_article(i, Some(favoriter)))
}

/// User `favoriter` unfavorites the article with slug `fav`: the edge is
/// removed and the article's counter goes down by one, in one step. Returns
/// the article as `favoriter` now sees it. Fails with `NotFound` for an unknown
/// slug or an edge that does not exist, leaving the store unchanged.
pub fn unfavorite(store: &mut Store, favoriter: i32, fav: &String) -> (r: DbResult<Article>)
    requires
        old(store).wf(),
    ensures
        final(store).wf(),
        r is Ok <==> old(store).can_unfavorite(favoriter, fav@),
        r matches Ok(v) ==> old(store).unfavorite_applied(*final(store), favoriter, fav@)
            && final(store).shows_slug(v, fav@, Some(favoriter)),
        r is Err ==> *final(store) == *old(store),
        r matches Err(e) ==> e is NotFound,
{
    let i = match store.find_slug(fav) {
        Some(i) => i,
        None => { return Err(Error::NotFound); },
    };
    let aid = store.articles[i].id;
    let k = match find_pair(&store.favorites, (favoriter, aid)) {
        Some(k) => k,
        None => {
            proof {
                assert forall|j: int| 0 <= j < store.articles@.len() && (#[trigger] store.articles@[j]).slug@ == fav@
                    implies !store.favorites@.contains((favoriter, store.articles@[j].id)) by {
                    if j != i {
                        assert(store.articles@[j].slug@ != store.articles@[i as int].slug@);
                    }
                }
            }
            return Err(Error::NotFound);
        },
    };
    let ghost old_store = *store;
    let mut row = store.articles[i].copy();
    row.favorites_count = row.favorites_count - 1;
    store.favorites.remove(k);
    store.articles.set(i, row);
    proof {
        let a = old_store.articles@[i as int];
        assert(row == with_count(a, a.favorites_count - 1));
        assert(old_store.favorites@[k as int] == (favoriter, a.id));
        assert(old_store.unfavorite_applied(*store, favoriter, fav@));
        unfavorite_preserves_wf(old_store, *store, favoriter, fav@);
    }
    Ok(store.view_article(i, Some(favoriter)))
}

/// Favoriting an article and then unfavoriting it, by the same user, gives
/// back the favorite edges and the articles, counters included, as they were.
pub proof fn favorite_then_unfavorite_restores(
    s0: Store,
    s1: Store,
    s2: Store,
    u: i32,
    slug: Seq<char>,
)
    requires
        s0.wf(),
        s0.favorite_applied(s1, u, slug),
        s1.unfavorite_applied(s2, u, slug),
    ensures
        s2.favorite_edges() == s0.favorite_edges(),
        s2.article_rows() == s0.article_rows(),
        s0.same_except_favorites(s2),
{
    let i = choose|i: int|
        0 <= i < s0.articles@.len() && (#[trigger] s0.articles@[i]).slug@ == slug && {
            let a = s0.articles@[i];
            &&& !s0.favorites@.contains((u, a.id))
            &&& a.favorites_count < i32::MAX
            &&& s1.favorites@ == s0.favorites@.push((u, a.id))
            &&& s1.articles@ == s0.articles@.update(i, with_count(a, a.favorites_count + 1))
        };
    let (i2, k) = choose|i2: int, k: int|
        0 <= i2 < s1.articles@.len() && 0 <= k < s1.favorites@.len()
            && (#[trigger] s1.articles@[i2]).slug@ == slug && {
            let a = s1.articles@[i2];
            &&& #[trigger] s1.favorites@[k] == (u, a.id)
            &&& s2.favorites@ == s1.favorites@.remove(k)
            &&& s2.articles@ == s1.articles@.update(i2, with_count(a, a.favorites_count - 1))
        };
    let a = s0.articles@[i];
    if i2 != i {
        assert(s1.articles@[i2] == s0.articles@[i2]);
        assert(s0.articles@[i2].slug@ != s0.articles@[i].slug@) by {
            if i2 < i {
            } else {
            }
        }
    }
    assert(i2 == i);
    if k < s0.favorites@.len() {
        assert(s0.favorites@[k] == (u, a.id));
        assert(s0.favorites@.contains((u, a.id)));
    }
    assert(k == s0.favorites@.len());
    assert(s2.favorites@ =~= s0.favorites@);
    assert(s2.articles@[i] == a);
    assert(s2.articles@ =~= s0.articles@);
}

/// In a well-formed store every article's favorites counter equals the number
/// of favorite edges that name it.
pub proof fn favorites_count_consistent(s: Store, i: int)
    requires
        s.wf(),
        0 <= i < s.article_rows().len(),
    ensures
        s.article_rows()[i].favorites_count == fav_count(
            s.favorite_edges(),
            s.article_rows()[i].id,
        ),
{
}

/// The texts of a list of strings.
pub open spec fn texts(s: Seq<String>) -> Seq<Seq<char>> {
    s.map_values(|x: String| x@)
}

/// The distinct texts of `s`, each where it first appears.
pub open spec fn first_occurrences(s: Seq<Seq<char>>) -> Seq<Seq<char>>
    decreases s.len(),
{
    if s.len() == 0 {
        seq![]
    } else {
        let prev = first_occurrences(s.drop_last());
        if prev.contains(s.last()) {
            prev
        } else {
            prev.push(s.last())
        }
    }
}

proof fn lemma_texts_has(s: Seq<String>, x: Seq<char>)
    ensures
        has_text(s, x) <==> texts(s).contains(x),
{
    if has_text(s, x) {
        let j = choose|j: int| 0 <= j < s.len() && (#[trigger] s[j])@ == x;
        assert(texts(s)[j] == x);
    }
    if texts(s).contains(x) {
        let j = choose|j: int| 0 <= j < texts(s).len() && texts(s)[j] == x;
        assert(s[j]@ == x);
    }
}

/// How many fresh slugs `create` and `update` try before giving up.
pub const SLUG_ATTEMPTS: usize = 8;

/// The tags given on creation; none when absent.
pub open spec fn given_tags(list: Option<Vec<String>>) -> Seq<String> {
    match list {
        Some(v) => v@,
        None => seq![],
    }
}

/// The later of `now` and the store's clock: stamps never go backwards.
pub open spec fn stamp(now: i64, clock: i64) -> i64 {
    if now > clock {
        now
    } else {
        clock
    }
}

impl Store {
    /// Whether `row` is the article that `author` creates from `data` at `now`.
    pub open(crate) spec fn new_row(self, row: PGArticle, data: NewArticleData, author: i32, now: i64) -> bool {
        &&& row.id == self.next_article_id
        &&& is_slug_for(row.slug@, data.title@)
        &&& !self.slug_taken(row.slug@)
        &&& row.title@ == cleaned(data.title@)
        &&& row.description@ == cleaned(data.description@)
        &&& row.body@ == cleaned(data.body@)
        &&& row.author == author
        &&& row.created_at == stamp(now, self.clock)
        &&& row.updated_at == row.created_at
        &&& row.favorites_count == 0
    }

    /// The outcome of `create`: what `post` and `r` are, from this store.
    pub open(crate) spec fn article_created(self, post: Store, article: NewArticleData, user_id: i32, now: i64, r: DbResult<Article>) -> bool {
        &&& (r is Err ==> post == self)
        &&& (r matches Err(e) ==> (e is NotFound <==> !self.valid_user(user_id)))
        &&& (r matches Err(e) ==> e is NotFound || e is InternalServerError || e is Conflict)
        &&& (r matches Err(e) ==> (e is InternalServerError <==> self.valid_user(user_id)
            && !self.has_room(given_tags(article.tag_list).len())))
        &&& (self.valid_user(user_id) && self.has_room(given_tags(article.tag_list).len())
            ==> (r is Ok || r matches Err(Error::Conflict(..))))
        &&& (self.valid_user(user_id) && self.has_room(given_tags(article.tag_list).len())
            && !self.title_slug_taken(article.title@) ==> r is Ok)
        &&& (r matches Err(Error::Conflict(..)) ==> self.title_slug_taken(article.title@))
        &&& (r matches Ok(v) ==> {
            let rows = post.article_rows();
            let row = rows.last();
            &&& rows == self.article_rows().push(row)
            &&& self.new_row(row, article, user_id, now)
            &&& post.shows(v, row, Some(user_id))
            &&& texts(post.article_tag_names(row.id)) == first_occurrences(
            texts(given_tags(article.tag_list)),
            )
            &&& self.same_except_articles(post)
            &&& self.tags_extended(post, given_tags(article.tag_list))
            &&& self.assoc_extended(post, row.id)
            })
    }

    /// The outcome of `update`: what `post` and `r` are, from this store.
    pub open(crate) spec fn article_updated(self, post: Store, user_id: i32, to_update: Seq<char>, data: UpdateArticleData, now: i64, r: DbResult<Article>) -> bool {
        &&& (r is Err ==> post == self)
        &&& (r matches Err(e) ==> (e is NotFound <==> !self.slug_taken(to_update)))
        &&& (r matches Err(e) ==> e is NotFound || e is Forbidden || e is Conflict)
        &&& (r matches Err(e) ==> (e is Forbidden <==> self.slug_taken(to_update) && !self.authored(user_id, to_update)))
        &&& (self.authored(user_id, to_update) ==> (r is Ok || r matches Err(Error::Conflict(..))))
        &&& (self.authored(user_id, to_update) && self.title_kept(to_update, data) ==> r is Ok)
        &&& (r matches Err(Error::Conflict(..)) ==> exists|i: int|
            0 <= i < self.article_rows().len()
            && (#[trigger] self.article_rows()[i]).slug@ == to_update && (
            data.title matches Some(t) && cleaned(t@) != self.article_rows()[i].title@
            && self.title_slug_taken(t@)))
        &&& (r matches Ok(v) ==> exists|i: int|
            0 <= i < self.article_rows().len()
            && (#[trigger] self.article_rows()[i]).slug@ == to_update && {
            let a = self.article_rows()[i];
            let b = post.article_rows()[i];
            &&& a.author == user_id
            &&& post.article_rows() == self.article_rows().update(i, b)
            &&& self.updated_row(a, b, data, now)
            &&& b.updated_at >= a.updated_at
            &&& post.shows(v, b, Some(user_id))
            })
        &&& (r is Ok ==> self.same_except_articles(post))
        &&& (r is Ok ==> post.tag_rows() == self.tag_rows() && post.assoc_edges()
            == self.assoc_edges())
    }

    /// Whether `post`'s tag table keeps every tag of this one, with its id, and
    /// adds only tags whose text is among `given`.
    pub open(crate) spec fn tags_extended(self, post: Store, given: Seq<String>) -> bool {
        &&& self.tags@.len() <= post.tags@.len()
        &&& forall|k: int| 0 <= k < self.tags@.len() ==> #[trigger] post.tags@[k] == self.tags@[k]
        &&& forall|k: int|
            self.tags@.len() <= k < post.tags@.len() ==> has_text(given, (#[trigger] post.tags@[k]).tag@)
    }

    /// Whether `post`'s tag associations keep every association of this one
    /// and add only associations of article `aid`, so that every other
    /// article's tags are as they were.
    pub open(crate) spec fn assoc_extended(self, post: Store, aid: i32) -> bool {
        &&& self.article_tags@.len() <= post.article_tags@.len()
        &&& forall|k: int| 0 <= k < self.article_tags@.len() ==> #[trigger] post.article_tags@[k] == self.article_tags@[k]
        &&& forall|k: int|
            self.article_tags@.len() <= k < post.article_tags@.len() ==> (#[trigger] post.article_tags@[k]).0 == aid
        &&& forall|b: i32| b != aid ==> #[trigger] post.article_tag_names(b) == self.article_tag_names(b)
    }

    /// Whether the id and tag tables have room for one more article with `n` tags.
    pub open(crate) spec fn has_room(self, n: nat) -> bool {
        &&& self.next_article_id < i32::MAX
        &&& self.tags@.len() + n < i32::MAX - 1
    }

    /// A slug for `title` that no article has yet, if one of a few tries finds it.
    fn fresh_slug(&self, title: &String) -> (r: Option<String>)
        ensures
            r matches Some(s) ==> is_slug_for(s@, title@) && !self.slug_taken(s@),
            r is None ==> self.title_slug_taken(title@),
    {
        let mut k: usize = 0;
        while k < SLUG_ATTEMPTS
            invariant
                k <= SLUG_ATTEMPTS,
                k > 0 ==> self.title_slug_taken(title@),
            decreases SLUG_ATTEMPTS - k,
        {
            let s = slugify(title.as_str());
            match self.find_slug(&s) {
                None => {
                    return Some(s);
                },
                Some(j) => {
                    assert(is_slug_for(self.articles@[j as int].slug@, title@));
                },
            }
            k = k + 1;
        }
        None
    }
}

/// Creates an article by `user_id` at time `now` (or the store's clock, if
/// later): title, description and body sanitized, a fresh slug made from the
/// title and a random suffix, and each given tag added to the tag table if
/// absent and associated once. Returns the article as its author sees it.
/// Fails with `NotFound` for an unknown author, with `InternalServerError`
/// when the id or tag tables are full, and with `Conflict` when no fresh slug
/// was found; a failure leaves the store unchanged.
pub fn create(store: &mut Store, article: &NewArticleData, user_id: i32, now: i64) -> (r: DbResult<Article>)
    requires
        old(store).wf(),
    ensures
        final(store).wf(),
        old(store).article_created(*final(store), *article, user_id, now, r),
{
    if user_id < 1 || user_id as usize > store.users.len() {
        return Err(Error::NotFound);
    }
    let n: usize = match &article.tag_list {
        Some(v) => v.len(),
        None => 0,
    };
    if store.next_article_id == i32::MAX || store.tags.len() as u64 + 1 >= i32::MAX as u64
        || n as u64 >= (i32::MAX as u64) - 1 - store.tags.len() as u64 {
        return Err(Error::InternalServerError(String::from_str("articles"), String::from_str("no room for another article")));
    }
    let slug = match store.fresh_slug(&article.title) {
        Some(s) => s,
        None => {
            return Err(Error::Conflict(String::from_str("articles"), String::from_str("slug")));
        },
    };
    let ghost old_store = *store;
    let created = if now > store.clock {
        now
    } else {
        store.clock
    };
    let aid = store.next_article_id;
    let row = PGArticle {
        id: aid,
        slug,
        title: clean(article.title.as_str()),
        description: clean(article.description.as_str()),
        body: clean(article.body.as_str()),
        author: user_id,
        created_at: created,
        updated_at: created,
        favorites_count: 0,
    };
    let ghost g_row = row;
    store.insert_article(row);
    let last = store.articles.len() - 1;
    proof {
        assert(store.articles@[last as int] == g_row);
        assert(store.has_article_id(aid));
        assert forall|k: int| 0 <= k < store.article_tags@.len() implies (#[trigger] store.article_tags@[k]).0 != aid by {
            let x = store.article_tags@[k].0;
            assert(old_store.has_article_id(x));
            let w = choose|w: int| 0 <= w < old_store.articles@.len() && (#[trigger] old_store.articles@[w]).id == x;
        }
        lemma_tag_names_none(store.article_tags@, store.tags@, aid);
    }
    match &article.tag_list {
        Some(list) => {
            let mut j: usize = 0;
            while j < list.len()
                invariant
                    store.wf(),
                    j <= list@.len(),
                    list@.len() == n,
                    store.articles@ == old_store.articles@.push(g_row),
                    store.tags@.len() + (n - j) < i32::MAX - 1,
                    old_store.same_except_articles(*store),
                    last == old_store.articles@.len(),
                    aid == g_row.id,
                    store.has_article_id(aid),
                    forall|x: Seq<char>|
                        #![trigger has_text(list@.take(j as int), x)]
                        #![trigger has_text(tag_names(store.article_tags@, store.tags@, aid), x)]
                        has_text(list@.take(j as int), x) <==> has_text(tag_names(store.article_tags@, store.tags@, aid), x),
                    texts(tag_names(store.article_tags@, store.tags@, aid)) == first_occurrences(texts(list@.take(j as int))),
                    old_store.tags@.len() <= store.tags@.len(),
                    forall|k: int| 0 <= k < old_store.tags@.len() ==> #[trigger] store.tags@[k] == old_store.tags@[k],
                    forall|k: int| old_store.tags@.len() <= k < store.tags@.len() ==> has_text(list@.take(j as int), (#[trigger] store.tags@[k]).tag@),
                    old_store.article_tags@.len() <= store.article_tags@.len(),
                    forall|k: int| 0 <= k < old_store.article_tags@.len() ==> #[trigger] store.article_tags@[k] == old_store.article_tags@[k],
                    forall|k: int| old_store.article_tags@.len() <= k < store.article_tags@.len() ==> (#[trigger] store.article_tags@[k]).0 == aid,
                    forall|b: i32| b != aid ==> #[trigger] tag_names(store.article_tags@, store.tags@, b) == tag_names(old_store.article_tags@, old_store.tags@, b),
                decreases list@.len() - j,
            {
                let t = &list[j];
                let ghost s1 = *store;
                let tid = store.upsert_tag(t);
                let ghost s2 = *store;
                proof {
                    if s2.tags@.len() == s1.tags@.len() {
                        assert(s2.tags@ =~= s1.tags@);
                    } else {
                        assert(s2.tags@ =~= s1.tags@.push(s2.tags@.last()));
                        lemma_tag_names_more_tags(s1.article_tags@, s1.tags@, s2.tags@.last(), aid);
                        assert forall|b: i32| b != aid implies #[trigger] tag_names(s2.article_tags@, s2.tags@, b) == tag_names(s1.article_tags@, s1.tags@, b) by {
                            lemma_tag_names_more_tags(s1.article_tags@, s1.tags@, s2.tags@.last(), b);
                        }
                    }
                    assert forall|k: int| old_store.tags@.len() <= k < s2.tags@.len() implies has_text(list@.take(j + 1), (#[trigger] s2.tags@[k]).tag@) by {
                        assert(list@.take(j + 1) =~= list@.take(j as int).push(list@[j as int]));
                        lemma_has_text_push(list@.take(j as int), list@[j as int], s2.tags@[k].tag@);
                    }
                }
                store.associate(aid, tid);
                proof {
                    let names1 = tag_names(s2.article_tags@, s2.tags@, aid);
                    let names2 = tag_names(store.article_tags@, store.tags@, aid);
                    assert(list@.take(j + 1) =~= list@.take(j as int).push(list@[j as int]));
                    let tt = texts(list@.take(j as int));
                    assert(texts(list@.take(j + 1)) =~= tt.push(t@));
                    assert(tt.push(t@).drop_last() =~= tt);
                    if s2.article_tags@.contains((aid, tid)) {
                        let k = choose|k: int| 0 <= k < s2.article_tags@.len() && s2.article_tags@[k] == (aid, tid);
                        lemma_tag_names_has(s2.article_tags@, s2.tags@, aid, t@);
                        assert(s2.article_tags@[k].0 == aid);
                        assert(has_text(names1, t@));
                        assert forall|x: Seq<char>| #[trigger] has_text(list@.take(j + 1), x) <==> has_text(names2, x) by {
                            lemma_has_text_push(list@.take(j as int), list@[j as int], x);
                        }
                        lemma_texts_has(names1, t@);
                        assert(names2 == names1);
                        assert(store.article_tags@ == s2.article_tags@);
                    } else {
                        assert(store.article_tags@.drop_last() =~= s2.article_tags@);
                        assert(names2 == names1.push(store.tags@[tid - 1].tag));
                        assert forall|x: Seq<char>| #[trigger] has_text(list@.take(j + 1), x) <==> has_text(names2, x) by {
                            lemma_has_text_push(list@.take(j as int), list@[j as int], x);
                            lemma_has_text_push(names1, store.tags@[tid - 1].tag, x);
                        }
                        lemma_texts_has(names1, t@);
                        if has_text(names1, t@) {
                            lemma_tag_names_has(s2.article_tags@, s2.tags@, aid, t@);
                            let k = choose|k: int| 0 <= k < s2.article_tags@.len() && (#[trigger] s2.article_tags@[k]).0 == aid && s2.tags@[s2.article_tags@[k].1 - 1].tag@ == t@;
                            let a = s2.article_tags@[k].1 - 1;
                            let b = tid - 1;
                            if a < b { assert(s2.tags@[a].tag@ != s2.tags@[b as int].tag@); }
                            else if a > b { assert(s2.tags@[b as int].tag@ != s2.tags@[a].tag@); }
                            assert(s2.article_tags@[k] == (aid, tid));
                            assert(s2.article_tags@.contains((aid, tid)));
                        }
                        assert(texts(names2) =~= texts(names1).push(t@));
                        assert forall|b: i32| b != aid implies #[trigger] tag_names(store.article_tags@, store.tags@, b) == tag_names(s2.article_tags@, s2.tags@, b) by {
                            assert(store.article_tags@.drop_last() =~= s2.article_tags@);
                        }
                    }
                }
                j = j + 1;
            }
            proof {
                assert(list@.take(n as int) =~= list@);
            }
        },
        None => {
            proof {
                assert(texts(seq![]) =~= seq![]);
            }
        },
    }
    proof {
        assert(store.articles@[last as int] == g_row);
    }
    Ok(store.view_article(last, Some(user_id)))
}

/// Deletes the article with slug `to_delete`, which only its author may do,
/// together with its favorites, tag associations and comments. Returns the
/// article as its author saw it just before. Fails with `NotFound` for an
/// unknown slug and with `Forbidden` for anyone but the author, leaving the
/// store unchanged.
pub fn delete(store: &mut Store, user_id: i32, to_delete: &String) -> (r: DbResult<Article>)
    requires
        old(store).wf(),
    ensures
        final(store).wf(),
        r is Err ==> *final(store) == *old(store),
        r matches Err(e) ==> (e is NotFound <==> !old(store).slug_taken(to_delete@)),
        r matches Err(e) ==> (e is Forbidden <==> old(store).slug_taken(to_delete@)),
        r is Ok <==> old(store).authored(user_id, to_delete@),
        r matches Ok(v) ==> old(store).shows_slug(v, to_delete@, Some(user_id)) && exists|i: int|
            0 <= i < old(store).article_rows().len()
                && (#[trigger] old(store).article_rows()[i]).slug@ == to_delete@
                && final(store).article_rows() == old(store).article_rows().remove(i)
                && old(store).removed_article(*final(store), old(store).article_rows()[i].id),
        r is Ok ==> final(store).user_rows() == old(store).user_rows() && final(store).tag_rows()
            == old(store).tag_rows() && final(store).following_edges() == old(store).following_edges(),
{
    let i = match store.find_slug(to_delete) {
        Some(i) => i,
        None => {
            return Err(Error::NotFound);
        },
    };
    if store.articles[i].author != user_id {
        proof {
            assert forall|j: int| 0 <= j < store.articles@.len() && (#[trigger] store.articles@[j]).slug@ == to_delete@
                implies store.articles@[j].author != user_id by {
                if j != i {
                    assert(store.articles@[j].slug@ != store.articles@[i as int].slug@);
                }
            }
        }
        return Err(Error::Forbidden);
    }
    let snapshot = store.view_article(i, Some(user_id));
    let ghost old_store = *store;
    store.remove_article(i);
    proof {
        assert(old_store.article_rows()[i as int].slug@ == to_delete@);
        assert(store.article_rows() == old_store.article_rows().remove(i as int));
    }
    Ok(snapshot)
}

impl Store {
    /// Whether `data` leaves the title of the article with this slug as it is:
    /// none is given, or the given one sanitizes to the stored title.
    pub open(crate) spec fn title_kept(self, slug: Seq<char>, data: UpdateArticleData) -> bool {
        forall|i: int|
            0 <= i < self.articles@.len() && (#[trigger] self.articles@[i]).slug@ == slug ==> match data.title {
                None => true,
                Some(t) => cleaned(t@) == self.articles@[i].title@,
            }
    }

    /// Whether `post` holds this store's favorites, tag associations and
    /// comments less those of article `aid`.
    pub open(crate) spec fn removed_article(self, post: Store, aid: i32) -> bool {
        &&& forall|p: (i32, i32)| #[trigger] post.favorites@.contains(p) <==> (self.favorites@.contains(p) && p.1 != aid)
        &&& forall|p: (i32, i32)| #[trigger] post.article_tags@.contains(p) <==> (self.article_tags@.contains(p) && p.0 != aid)
        &&& forall|c: CommentQuery| #[trigger] post.comments@.contains(c) <==> (self.comments@.contains(c) && c.article_id != aid)
    }

    /// Whether the article with this slug exists and is by `user_id`.
    pub open(crate) spec fn authored(self, user_id: i32, slug: Seq<char>) -> bool {
        exists|i: int|
            0 <= i < self.articles@.len() && (#[trigger] self.articles@[i]).slug@ == slug
                && self.articles@[i].author == user_id
    }

    /// Whether `b` is stored article `a` after `data` is applied at `now`:
    /// present fields sanitized and set, the update time stamped, and the slug
    /// made anew exactly when a title is given whose sanitized text differs
    /// from the stored title.
    pub open(crate) spec fn updated_row(self, a: PGArticle, b: PGArticle, data: UpdateArticleData, now: i64) -> bool {
        &&& b.id == a.id
        &&& b.author == a.author
        &&& b.created_at == a.created_at
        &&& b.favorites_count == a.favorites_count
        &&& b.updated_at == stamp(now, self.clock)
        &&& match data.title {
            None => b.title == a.title && b.slug == a.slug,
            Some(t) => b.title@ == cleaned(t@) && if cleaned(t@) == a.title@ {
                b.slug == a.slug
            } else {
                is_slug_for(b.slug@, t@) && !self.slug_taken(b.slug@)
            },
        }
        &&& match data.description {
            None => b.description == a.description,
            Some(d) => b.description@ == cleaned(d@),
        }
        &&& match data.body {
            None => b.body == a.body,
            Some(d) => b.body@ == cleaned(d@),
        }
    }
}

fn cleaned_or(field: &Option<String>, current: &String) -> (r: String)
    ensures
        field is None ==> r == *current,
        field matches Some(f) ==> r@ == cleaned(f@),
{
    match field {
        Some(f) => clean(f.as_str()),
        None => current.clone(),
    }
}

/// Updates the article with slug `to_update`, which only its author may do:
/// present fields are sanitized and set, the update time is stamped with `now`
/// (or the store's clock, if later), and the slug is made anew only when the
/// sanitized new title differs from the stored one. Tags are left as they are.
/// Returns the article as its author now sees it. Fails with `NotFound` for an
/// unknown slug, with `Forbidden` for anyone but the author, and with
/// `Conflict` when no fresh slug was found, leaving the store unchanged.
pub fn update(store: &mut Store, user_id: i32, to_update: &String, data: &UpdateArticleData, now: i64) -> (r: DbResult<Article>)
    requires
        old(store).wf(),
    ensures
        final(store).wf(),
        old(store).article_updated(*final(store), user_id, to_update@, *data, now, r),
{
    let i = match store.find_slug(to_update) {
        Some(i) => i,
        None => {
            return Err(Error::NotFound);
        },
    };
    if store.articles[i].author != user_id {
        proof {
            assert forall|j: int| 0 <= j < store.articles@.len() && (#[trigger] store.articles@[j]).slug@ == to_update@
                implies store.articles@[j].author != user_id by {
                if j != i {
                    assert(store.articles@[j].slug@ != store.articles@[i as int].slug@);
                }
            }
        }
        return Err(Error::Forbidden);
    }
    let a = store.articles[i].copy();
    let new_slug: Option<String> = match &data.title {
        Some(t) => {
            let c = clean(t.as_str());
            if c == a.title {
                None
            } else {
                match store.fresh_slug(t) {
                    Some(s) => Some(s),
                    None => {
                        proof {
                            assert(store.article_rows()[i as int].slug@ == to_update@);
                        }
                        return Err(Error::Conflict(String::from_str("articles"), String::from_str("slug")));
                    },
                }
            }
        },
        None => None,
    };
    let ghost old_store = *store;
    let updated = if now > store.clock {
        now
    } else {
        store.clock
    };
    let slug = match new_slug {
        Some(s) => s,
        None => a.slug.clone(),
    };
    let b = PGArticle {
        id: a.id,
        slug,
        title: cleaned_or(&data.title, &a.title),
        description: cleaned_or(&data.description, &a.description),
        body: cleaned_or(&data.body, &a.body),
        author: a.author,
        created_at: a.created_at,
        updated_at: updated,
        favorites_count: a.favorites_count,
    };
    let ghost gb = b;
    store.articles.set(i, b);
    store.clock = updated;
    proof {
        let olds = old_store;
        let oa = olds.articles@;
        assert(store.articles@[i as int] == gb);
        assert forall|x: i32| olds.has_article_id(x) implies store.has_article_id(x) by {
            lemma_article_ids_kept(oa, store.articles@, x);
        }
        assert forall|x: int, y: int| 0 <= x < y < store.articles@.len() implies {
            &&& (#[trigger] store.articles@[x]).id < (#[trigger] store.articles@[y]).id
            &&& store.articles@[x].created_at <= store.articles@[y].created_at
            &&& store.articles@[x].slug@ != store.articles@[y].slug@
        } by {
            if x == i || y == i {
                if gb.slug == a.slug {
                } else {
                    assert(!olds.slug_taken(gb.slug@));
                    assert(oa[x].slug@ != gb.slug@ || x == i);
                    assert(oa[y].slug@ != gb.slug@ || y == i);
                }
            }
        }
        assert forall|k: int| 0 <= k < store.article_tags@.len() implies store.has_article_id((#[trigger] store.article_tags@[k]).0) by {
            assert(olds.has_article_id(olds.article_tags@[k].0));
        }
        assert forall|k: int| 0 <= k < store.favorites@.len() implies store.has_article_id((#[trigger] store.favorites@[k]).1) by {
            assert(olds.has_article_id(olds.favorites@[k].1));
        }
        assert forall|c: int| 0 <= c < store.comments@.len() implies store.has_article_id((#[trigger] store.comments@[c]).article_id) by {
            assert(olds.has_article_id(olds.comments@[c].article_id));
        }
        assert(olds.updated_row(oa[i as int], gb, *data, now));
        assert(store.articles@ =~= oa.update(i as int, gb));
    }
    let v = store.view_article(i, Some(user_id));
    proof {
        assert(old_store.article_rows()[i as int].slug@ == to_update@);
        assert(store.article_rows()[i as int] == gb);
    }
    Ok(v)
}

/// Up to twenty tag texts, in tag-table order.
pub fn tags(store: &Store) -> (r: DbResult<TagList>)
    requires
        store.wf(),
    ensures
        r matches Ok(list) && list.0@.len() == if store.tag_count() < 20 { store.tag_count() } else { 20 }
            && forall|j: int| 0 <= j < list.0@.len() ==> (#[trigger] list.0@[j]) == store.tag_text(j),
{
    let mut out: Vec<String> = Vec::new();
    let mut j: usize = 0;
    while j < store.tags.len() && j < 20
        invariant
            j <= store.tags@.len(),
            j <= 20,
            out@.len() == j,
            forall|q: int| 0 <= q < j ==> (#[trigger] out@[q]) == store.tag_text(q),
        decreases 20 - j,
    {
        out.push(store.tags[j].tag.clone());
        j = j + 1;
    }
    Ok(TagList(out))
}

/// No two stored articles share a slug, so articles created with one title
/// still get distinct slugs.
pub proof fn slugs_are_distinct(s: Store, i: int, j: int)
    requires
        s.wf(),
        0 <= i < j < s.article_rows().len(),
    ensures
        s.article_rows()[i].slug@ != s.article_rows()[j].slug@,
{
}

/// Favoriting keeps the store well formed; in particular every article's
/// counter still equals the number of favorite edges that name it. With the
/// same law for unfavoriting, the counters are exact after any sequence of
/// such calls.
pub proof fn favorite_preserves_wf(s0: Store, s1: Store, u: i32, slug: Seq<char>)
    requires
        s0.wf(),
        s0.favorite_applied(s1, u, slug),
    ensures
        s1.wf(),
{
    let i = choose|i: int|
        0 <= i < s0.articles@.len() && (#[trigger] s0.articles@[i]).slug@ == slug && {
            let a = s0.articles@[i];
            &&& !s0.favorites@.contains((u, a.id))
            &&& a.favorites_count < i32::MAX
            &&& s1.favorites@ == s0.favorites@.push((u, a.id))
            &&& s1.articles@ == s0.articles@.update(i, with_count(a, a.favorites_count + 1))
        };
    let aid = s0.articles@[i].id;
    assert forall|j: int| 0 <= j < s1.articles@.len() implies
        (#[trigger] s1.articles@[j]).favorites_count == fav_count(s1.favorites@, s1.articles@[j].id) by {
        lemma_fav_count_push(s0.favorites@, (u, aid), s1.articles@[j].id);
        if j != i {
            if j < i { assert(s0.articles@[j].id < s0.articles@[i].id); }
            else { assert(s0.articles@[i].id < s0.articles@[j].id); }
        }
    }
    assert forall|x: i32| s0.has_article_id(x) implies s1.has_article_id(x) by {
        let w = choose|w: int| 0 <= w < s0.articles@.len() && (#[trigger] s0.articles@[w]).id == x;
        assert(s1.articles@[w].id == x);
    }
    assert(s1.has_article_id(aid)) by { assert(s1.articles@[i].id == aid); }
    assert forall|k: int| 0 <= k < s1.favorites@.len() implies {
        let p = #[trigger] s1.favorites@[k];
        &&& s1.valid_user(p.0)
        &&& s1.has_article_id(p.1)
    } by {
        if k < s0.favorites@.len() { assert(s1.favorites@[k] == s0.favorites@[k]); }
    }
    assert forall|k: int| 0 <= k < s1.article_tags@.len() implies s1.has_article_id((#[trigger] s1.article_tags@[k]).0) by {
        assert(s0.has_article_id(s0.article_tags@[k].0));
    }
    assert forall|c: int| 0 <= c < s1.comments@.len() implies s1.has_article_id((#[trigger] s1.comments@[c]).article_id) by {
        assert(s0.has_article_id(s0.comments@[c].article_id));
    }
    assert(s1.favorites@.no_duplicates()) by {
        assert forall|p: int, q: int| 0 <= p < q < s1.favorites@.len() implies s1.favorites@[p] != s1.favorites@[q] by {
            if q == s0.favorites@.len() {
                assert(s0.favorites@[p] == s1.favorites@[p]);
            }
        }
    }
}

/// Unfavoriting keeps the store well formed; in particular every article's
/// counter still equals the number of favorite edges that name it.
pub proof fn unfavorite_preserves_wf(s0: Store, s1: Store, u: i32, slug: Seq<char>)
    requires
        s0.wf(),
        s0.unfavorite_applied(s1, u, slug),
    ensures
        s1.wf(),
{
    let (i, k) = choose|i: int, k: int|
        0 <= i < s0.articles@.len() && 0 <= k < s0.favorites@.len()
            && (#[trigger] s0.articles@[i]).slug@ == slug && {
            let a = s0.articles@[i];
            &&& #[trigger] s0.favorites@[k] == (u, a.id)
            &&& s1.favorites@ == s0.favorites@.remove(k)
            &&& s1.articles@ == s0.articles@.update(i, with_count(a, a.favorites_count - 1))
        };
    let aid = s0.articles@[i].id;
    lemma_fav_count_remove(s0.favorites@, k, aid);
    assert forall|j: int| 0 <= j < s1.articles@.len() implies
        (#[trigger] s1.articles@[j]).favorites_count == fav_count(s1.favorites@, s1.articles@[j].id) by {
        lemma_fav_count_remove(s0.favorites@, k, s1.articles@[j].id);
        if j != i {
            if j < i { assert(s0.articles@[j].id < s0.articles@[i].id); }
            else { assert(s0.articles@[i].id < s0.articles@[j].id); }
        }
    }
    assert forall|x: i32| s0.has_article_id(x) implies s1.has_article_id(x) by {
        let w = choose|w: int| 0 <= w < s0.articles@.len() && (#[trigger] s0.articles@[w]).id == x;
        assert(s1.articles@[w].id == x);
    }
    assert forall|q: int| 0 <= q < s1.favorites@.len() implies {
        let p = #[trigger] s1.favorites@[q];
        &&& s1.valid_user(p.0)
        &&& s1.has_article_id(p.1)
    } by {
        if q < k { assert(s1.favorites@[q] == s0.favorites@[q]); }
        else { assert(s1.favorites@[q] == s0.favorites@[q + 1]); }
    }
    assert forall|q: int| 0 <= q < s1.article_tags@.len() implies s1.has_article_id((#[trigger] s1.article_tags@[q]).0) by {
        assert(s0.has_article_id(s0.article_tags@[q].0));
    }
    assert forall|c: int| 0 <= c < s1.comments@.len() implies s1.has_article_id((#[trigger] s1.comments@[c]).article_id) by {
        assert(s0.has_article_id(s0.comments@[c].article_id));
    }
    assert(s1.favorites@.no_duplicates()) by {
        assert forall|p: int, q: int| 0 <= p < q < s1.favorites@.len() implies s1.favorites@[p] != s1.favorites@[q] by {
            let pp = if p < k { p } else { p + 1 };
            let qq = if q < k { q } else { q + 1 };
            assert(s1.favorites@[p] == s0.favorites@[pp]);
            assert(s1.favorites@[q] == s0.favorites@[qq]);
        }
    }
}

/// An article's tag list never names one tag twice.
pub proof fn tag_lists_are_deduplicated(s: Store, aid: i32, i: int, j: int)
    requires
        s.wf(),
        0 <= i < j < s.article_tag_names(aid).len(),
    ensures
        s.article_tag_names(aid)[i]@ != s.article_tag_names(aid)[j]@,
{
    lemma_tag_names_distinct(s.article_tags@, s.tags@, aid);
}

/// Listings run newest first: by creation time, ties broken by the higher id.
pub proof fn listing_is_newest_first(
    s: Store,
    tag: Option<String>,
    author: Option<String>,
    favorited: Option<String>,
    p: int,
    q: int,
)
    requires
        s.wf(),
        0 <= p < q < s.listing(tag, author, favorited).len(),
    ensures
        s.listing(tag, author, favorited)[p].created_at >= s.listing(tag, author, favorited)[q].created_at,
        s.listing(tag, author, favorited)[p].id > s.listing(tag, author, favorited)[q].id,
{
    lemma_newest_first_ordered(s.articles@, |a: PGArticle| s.listed(a, tag, author, favorited));
}

/// Feeds run newest first: by creation time, ties broken by the higher id.
pub proof fn feed_is_newest_first(s: Store, uid: i32, p: int, q: int)
    requires
        s.wf(),
        0 <= p < q < s.feed(uid).len(),
    ensures
        s.feed(uid)[p].created_at >= s.feed(uid)[q].created_at,
        s.feed(uid)[p].id > s.feed(uid)[q].id,
{
    lemma_newest_first_ordered(s.articles@, |a: PGArticle| s.followings@.contains((uid, a.author)));
}

/// A created article's slug differs from every slug already stored, and the
/// stored articles stay in place: creating articles with one title, one after
/// another, yields as many distinct slugs.
pub proof fn created_slug_is_fresh(
    s0: Store,
    s1: Store,
    article: NewArticleData,
    user_id: i32,
    now: i64,
    r: DbResult<Article>,
    i: int,
)
    requires
        s0.wf(),
        s0.article_created(s1, article, user_id, now, r),
        r is Ok,
        0 <= i < s0.article_rows().len(),
    ensures
        s1.article_rows().last().slug@ != s0.article_rows()[i].slug@,
        s1.article_rows()[i] == s0.article_rows()[i],
{
    let rows = s1.article_rows();
    assert(rows[i] == s0.article_rows()[i]);
}

} // verus!
