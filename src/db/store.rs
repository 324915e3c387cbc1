use crate::models::article::{is_slug_for, Article, ArticleList, PGArticle};
use crate::models::comment::CommentQuery;
use crate::models::user::{Profile, User};
use vstd::prelude::*;

verus! {

/// A row of the tag table.
#[derive(Debug)]
pub struct TagRecord {
    pub id: i32,
    pub tag: String,
}

/// All durable state: the user, article, comment and tag tables and the
/// tag-association, favorite and following edges.
#[derive(Debug)]
pub struct Store {
    pub(crate) users: Vec<User>,
    pub(crate) articles: Vec<PGArticle>,
    pub(crate) comments: Vec<CommentQuery>,
    pub(crate) tags: Vec<TagRecord>,
    /// (article id, tag id)
    pub(crate) article_tags: Vec<(i32, i32)>,
    /// (user id, article id)
    pub(crate) favorites: Vec<(i32, i32)>,
    /// (follower id, followed id)
    pub(crate) followings: Vec<(i32, i32)>,
    pub(crate) next_article_id: i32,
    pub(crate) next_comment_id: i32,
    pub(crate) clock: i64,
}

/// The number of favorite edges that name article `aid`.
pub open spec fn fav_count(favs: Seq<(i32, i32)>, aid: i32) -> nat
    decreases favs.len(),
{
    if favs.len() == 0 {
        0
    } else {
        fav_count(favs.drop_last(), aid) + if favs.last().1 == aid {
            1nat
        } else {
            0nat
        }
    }
}

impl Store {
    pub open(crate) spec fn user_ids_ok(self) -> bool {
        &&& self.users@.len() < i32::MAX
        &&& forall|i: int| 0 <= i < self.users@.len() ==> (#[trigger] self.users@[i]).id == i + 1
    }

    /// The stored articles, in store order.
    pub open(crate) spec fn article_rows(self) -> Seq<PGArticle> {
        self.articles@
    }

    /// The stored comments, in store order.
    pub open(crate) spec fn comment_rows(self) -> Seq<CommentQuery> {
        self.comments@
    }

    /// The favorite edges, as (user id, article id).
    pub open(crate) spec fn favorite_edges(self) -> Seq<(i32, i32)> {
        self.favorites@
    }

    /// The latest time stamped so far.
    pub open(crate) spec fn clock_value(self) -> i64 {
        self.clock
    }

    pub open(crate) spec fn tag_count(self) -> int {
        self.tags@.len() as int
    }

    /// The text of the tag at position `j` of the tag table.
    pub open(crate) spec fn tag_text(self, j: int) -> String {
        self.tags@[j].tag
    }

    /// The tag table, in id order.
    pub open(crate) spec fn tag_rows(self) -> Seq<TagRecord> {
        self.tags@
    }

    /// The tag associations, as (article id, tag id).
    pub open(crate) spec fn assoc_edges(self) -> Seq<(i32, i32)> {
        self.article_tags@
    }

    /// The id the next comment gets.
    pub open(crate) spec fn next_comment_id_value(self) -> i32 {
        self.next_comment_id
    }

    /// The following edges, as (follower id, followed id).
    pub open(crate) spec fn following_edges(self) -> Seq<(i32, i32)> {
        self.followings@
    }

    pub open(crate) spec fn valid_user(self, id: i32) -> bool {
        1 <= id <= self.users@.len()
    }

    /// The stored account with id `id` (meaningful when `valid_user(id)`).
    pub open(crate) spec fn user(self, id: i32) -> User {
        self.users@[id - 1]
    }

    pub open(crate) spec fn has_article_id(self, aid: i32) -> bool {
        exists|i: int| 0 <= i < self.articles@.len() && (#[trigger] self.articles@[i]).id == aid
    }

    pub open(crate) spec fn wf(self) -> bool {
        &&& self.user_ids_ok()
        &&& forall|i: int, j: int|
            0 <= i < j < self.users@.len() ==> (#[trigger] self.users@[i]).username@
                != (#[trigger] self.users@[j]).username@ && self.users@[i].email@
                != self.users@[j].email@
        &&& self.tags@.len() < i32::MAX
        &&& forall|i: int| 0 <= i < self.tags@.len() ==> (#[trigger] self.tags@[i]).id == i + 1
        &&& forall|i: int, j: int|
            0 <= i < j < self.tags@.len() ==> (#[trigger] self.tags@[i]).tag@
                != (#[trigger] self.tags@[j]).tag@
        &&& self.articles@.len() < self.next_article_id
        &&& self.comments@.len() < self.next_comment_id
        &&& forall|i: int|
            0 <= i < self.articles@.len() ==> {
                let a = #[trigger] self.articles@[i];
                &&& 0 < a.id < self.next_article_id
                &&& a.created_at <= self.clock
                &&& a.updated_at <= self.clock
                &&& self.valid_user(a.author)
                &&& a.favorites_count == fav_count(self.favorites@, a.id)
            }
        &&& forall|i: int, j: int|
            0 <= i < j < self.articles@.len() ==> {
                &&& (#[trigger] self.articles@[i]).id < (#[trigger] self.articles@[j]).id
                &&& self.articles@[i].created_at <= self.articles@[j].created_at
                &&& self.articles@[i].slug@ != self.articles@[j].slug@
            }
        &&& forall|k: int|
            0 <= k < self.article_tags@.len() ==> {
                let p = #[trigger] self.article_tags@[k];
                &&& 1 <= p.1 <= self.tags@.len()
                &&& self.has_article_id(p.0)
            }
        &&& self.article_tags@.no_duplicates()
        &&& forall|k: int|
            0 <= k < self.favorites@.len() ==> {
                let p = #[trigger] self.favorites@[k];
                &&& self.valid_user(p.0)
                &&& self.has_article_id(p.1)
            }
        &&& self.favorites@.no_duplicates()
        &&& forall|k: int|
            0 <= k < self.followings@.len() ==> {
                let p = #[trigger] self.followings@[k];
                &&& self.valid_user(p.0)
                &&& self.valid_user(p.1)
            }
        &&& self.followings@.no_duplicates()
        &&& forall|i: int|
            0 <= i < self.comments@.len() ==> {
                let c = #[trigger] self.comments@[i];
                &&& 0 < c.id < self.next_comment_id
                &&& c.created_at <= self.clock
                &&& self.valid_user(c.user_id)
                &&& self.has_article_id(c.article_id)
            }
        &&& forall|i: int, j: int|
            0 <= i < j < self.comments@.len() ==> {
                &&& (#[trigger] self.comments@[i]).id < (#[trigger] self.comments@[j]).id
                &&& self.comments@[i].created_at <= self.comments@[j].created_at
            }
    }

    /// No accounts, articles, comments, tags or edges.
    pub open(crate) spec fn is_empty(self) -> bool {
        &&& self.users@.len() == 0
        &&& self.articles@.len() == 0
        &&& self.comments@.len() == 0
        &&& self.tags@.len() == 0
        &&& self.article_tags@.len() == 0
        &&& self.favorites@.len() == 0
        &&& self.followings@.len() == 0
    }

    /// An empty store.
    pub fn new() -> (s: Store)
        ensures
            s.wf(),
            s.is_empty(),
    {
        Store {
            users: Vec::new(),
            articles: Vec::new(),
            comments: Vec::new(),
            tags: Vec::new(),
            article_tags: Vec::new(),
            favorites: Vec::new(),
            followings: Vec::new(),
            next_article_id: 1,
            next_comment_id: 1,
            clock: i64::MIN,
        }
    }
}


/// The tag texts associated with article `aid`, in association order.
pub open spec fn tag_names(assoc: Seq<(i32, i32)>, tags: Seq<TagRecord>, aid: i32) -> Seq<String>
    decreases assoc.len(),
{
    if assoc.len() == 0 {
        seq![]
    } else {
        let prev = tag_names(assoc.drop_last(), tags, aid);
        if assoc.last().0 == aid {
            prev.push(tags[assoc.last().1 - 1].tag)
        } else {
            prev
        }
    }
}

/// The rows that `keep` accepts, newest first: the reverse of their store
/// order, which the store keeps by creation time and id.
pub open spec fn newest_first(rows: Seq<PGArticle>, keep: spec_fn(PGArticle) -> bool) -> Seq<
    PGArticle,
>
    decreases rows.len(),
{
    if rows.len() == 0 {
        seq![]
    } else {
        let rest = newest_first(rows.subrange(1, rows.len() as int), keep);
        if keep(rows[0]) {
            rest.push(rows[0])
        } else {
            rest
        }
    }
}

/// Where a page that skips `offset` rows of a `len`-long result starts.
pub open spec fn page_start(len: int, offset: int) -> int {
    if offset < len {
        offset
    } else {
        len
    }
}

/// Where a page of at most `limit` rows of a `len`-long result ends.
pub open spec fn page_end(len: int, offset: int, limit: int) -> int {
    if page_start(len, offset) + limit < len {
        page_start(len, offset) + limit
    } else {
        len
    }
}

impl Store {
    /// Whether `viewer` follows `uid`; never for an anonymous viewer or oneself.
    pub open(crate) spec fn following_flag(self, viewer: Option<i32>, uid: i32) -> bool {
        match viewer {
            None => false,
            Some(v) => v != uid && self.followings@.contains((v, uid)),
        }
    }

    /// Whether `viewer` has favorited article `aid`; never for an anonymous viewer.
    pub open(crate) spec fn favorited_flag(self, viewer: Option<i32>, aid: i32) -> bool {
        match viewer {
            None => false,
            Some(v) => self.favorites@.contains((v, aid)),
        }
    }

    /// Whether `p` is the profile of account `uid` as `viewer` sees it.
    pub open(crate) spec fn shows_profile(self, p: Profile, uid: i32, viewer: Option<i32>) -> bool {
        self.user(uid).profile_is(p, self.following_flag(viewer, uid))
    }

    pub open(crate) spec fn article_tag_names(self, aid: i32) -> Seq<String> {
        tag_names(self.article_tags@, self.tags@, aid)
    }

    /// Whether `v` is stored article `a` as `viewer` sees it.
    pub open(crate) spec fn shows(self, v: Article, a: PGArticle, viewer: Option<i32>) -> bool {
        &&& a.shown_as(v, v.author, self.article_tag_names(a.id), self.favorited_flag(viewer, a.id))
        &&& self.shows_profile(v.author, a.author, viewer)
    }

    pub open(crate) spec fn has_tag(self, aid: i32, t: Seq<char>) -> bool {
        exists|k: int|
            0 <= k < self.article_tags@.len() && (#[trigger] self.article_tags@[k]).0 == aid
                && self.tags@[self.article_tags@[k].1 - 1].tag@ == t
    }

    pub open(crate) spec fn favorited_by_name(self, aid: i32, name: Seq<char>) -> bool {
        exists|k: int|
            0 <= k < self.favorites@.len() && (#[trigger] self.favorites@[k]).1 == aid
                && self.user(self.favorites@[k].0).username@ == name
    }

    /// Whether article `a` passes the listing filters; absent filters pass all.
    pub open(crate) spec fn listed(
        self,
        a: PGArticle,
        tag: Option<String>,
        author: Option<String>,
        favorited: Option<String>,
    ) -> bool {
        &&& (tag matches Some(t) ==> self.has_tag(a.id, t@))
        &&& (author matches Some(n) ==> self.user(a.author).username@ == n@)
        &&& (favorited matches Some(n) ==> self.favorited_by_name(a.id, n@))
    }

    /// The articles of a listing with these filters, newest first.
    pub open(crate) spec fn listing(
        self,
        tag: Option<String>,
        author: Option<String>,
        favorited: Option<String>,
    ) -> Seq<PGArticle> {
        newest_first(self.articles@, |a: PGArticle| self.listed(a, tag, author, favorited))
    }

    /// The articles of `uid`'s feed: those by authors `uid` follows, newest first.
    pub open(crate) spec fn feed(self, uid: i32) -> Seq<PGArticle> {
        newest_first(self.articles@, |a: PGArticle| self.followings@.contains((uid, a.author)))
    }

    /// Whether `list` is the page of `rows` that skips `offset` rows and holds
    /// at most `limit`, as `viewer` sees it, with the number of all rows.
    pub open(crate) spec fn is_page(
        self,
        list: ArticleList,
        rows: Seq<PGArticle>,
        offset: int,
        limit: int,
        viewer: Option<i32>,
    ) -> bool {
        let start = page_start(rows.len() as int, offset);
        let end = page_end(rows.len() as int, offset, limit);
        &&& list.articles_count == rows.len()
        &&& list.articles@.len() == end - start
        &&& forall|j: int|
            0 <= j < list.articles@.len() ==> self.shows(
                #[trigger] list.articles@[j],
                rows[start + j],
                viewer,
            )
    }
}

/// Whether `v` holds the pair `p`.
pub(crate) fn has_pair(v: &Vec<(i32, i32)>, p: (i32, i32)) -> (r: bool)
    ensures
        r == v@.contains(p),
{
    match find_pair(v, p) {
        Some(_) => true,
        None => false,
    }
}

/// Where `v` holds the pair `p`, if anywhere.
pub(crate) fn find_pair(v: &Vec<(i32, i32)>, p: (i32, i32)) -> (r: Option<usize>)
    ensures
        r matches Some(k) ==> k < v@.len() && v@[k as int] == p,
        r is None ==> !v@.contains(p),
{
    let mut k: usize = 0;
    while k < v.len()
        invariant
            k <= v@.len(),
            forall|j: int| 0 <= j < k ==> v@[j] != p,
        decreases v@.len() - k,
    {
        if v[k].0 == p.0 && v[k].1 == p.1 {
            return Some(k);
        }
        k = k + 1;
    }
    None
}

impl Store {
    /// The index of the article with this slug, if any.
    pub(crate) fn find_slug(&self, slug: &String) -> (r: Option<usize>)
        ensures
            r matches Some(i) ==> i < self.articles@.len() && self.articles@[i as int].slug@
                == slug@,
            r is None ==> forall|i: int|
                0 <= i < self.articles@.len() ==> (#[trigger] self.articles@[i]).slug@ != slug@,
    {
        let mut i: usize = 0;
        while i < self.articles.len()
            invariant
                i <= self.articles@.len(),
                forall|j: int| 0 <= j < i ==> (#[trigger] self.articles@[j]).slug@ != slug@,
            decreases self.articles@.len() - i,
        {
            if self.articles[i].slug == *slug {
                return Some(i);
            }
            i = i + 1;
        }
        None
    }

    /// The account with this username, if any.
    pub(crate) fn find_username(&self, name: &String) -> (r: Option<usize>)
        ensures
            r matches Some(i) ==> i < self.users@.len() && self.users@[i as int].username@
                == name@,
            r is None ==> forall|i: int|
                0 <= i < self.users@.len() ==> (#[trigger] self.users@[i]).username@ != name@,
    {
        let mut i: usize = 0;
        while i < self.users.len()
            invariant
                i <= self.users@.len(),
                forall|j: int| 0 <= j < i ==> (#[trigger] self.users@[j]).username@ != name@,
            decreases self.users@.len() - i,
        {
            if self.users[i].username == *name {
                return Some(i);
            }
            i = i + 1;
        }
        None
    }

    /// The account with this email, if any.
    pub(crate) fn find_email(&self, email: &String) -> (r: Option<usize>)
        ensures
            r matches Some(i) ==> i < self.users@.len() && self.users@[i as int].email@
                == email@,
            r is None ==> forall|i: int|
                0 <= i < self.users@.len() ==> (#[trigger] self.users@[i]).email@ != email@,
    {
        let mut i: usize = 0;
        while i < self.users.len()
            invariant
                i <= self.users@.len(),
                forall|j: int| 0 <= j < i ==> (#[trigger] self.users@[j]).email@ != email@,
            decreases self.users@.len() - i,
        {
            if self.users[i].email == *email {
                return Some(i);
            }
            i = i + 1;
        }
        None
    }

    /// Account `uid` as `viewer` sees it.
    pub(crate) fn profile_for(&self, uid: i32, viewer: Option<i32>) -> (p: Profile)
        requires
            self.wf(),
            self.valid_user(uid),
        ensures
            self.shows_profile(p, uid, viewer),
    {
        let following = match viewer {
            None => false,
            Some(v) => v != uid && has_pair(&self.followings, (v, uid)),
        };
        self.users[(uid - 1) as usize].copy().to_profile(following)
    }

    /// The tag texts of article `aid`.
    pub(crate) fn tag_list_of(&self, aid: i32) -> (r: Vec<String>)
        requires
            self.wf(),
        ensures
            r@ == self.article_tag_names(aid),
    {
        let mut r: Vec<String> = Vec::new();
        let mut k: usize = 0;
        while k < self.article_tags.len()
            invariant
                self.wf(),
                k <= self.article_tags@.len(),
                r@ == tag_names(self.article_tags@.take(k as int), self.tags@, aid),
            decreases self.article_tags@.len() - k,
        {
            let p = self.article_tags[k];
            assert(self.article_tags@.take(k + 1).drop_last() =~= self.article_tags@.take(k as int));
            if p.0 == aid {
                r.push(self.tags[(p.1 - 1) as usize].tag.clone());
            }
            k = k + 1;
        }
        assert(self.article_tags@.take(k as int) =~= self.article_tags@);
        r
    }

    /// Stored article `i` as `viewer` sees it.
    pub(crate) fn view_article(&self, i: usize, viewer: Option<i32>) -> (v: Article)
        requires
            self.wf(),
            i < self.articles@.len(),
        ensures
            self.shows(v, self.articles@[i as int], viewer),
    {
        let a = &self.articles[i];
        let profile = self.profile_for(a.author, viewer);
        let tags = self.tag_list_of(a.id);
        let favorited = match viewer {
            None => false,
            Some(v) => has_pair(&self.favorites, (v, a.id)),
        };
        a.copy().to_article(profile, tags, favorited)
    }
}


/// `a` with its favorites counter set to `c`.
pub open spec fn with_count(a: PGArticle, c: int) -> PGArticle {
    PGArticle { favorites_count: c as i32, ..a }
}

pub proof fn lemma_fav_count_push(favs: Seq<(i32, i32)>, p: (i32, i32), aid: i32)
    ensures
        fav_count(favs.push(p), aid) == fav_count(favs, aid) + if p.1 == aid {
            1int
        } else {
            0int
        },
{
    assert(favs.push(p).drop_last() =~= favs);
}

pub proof fn lemma_fav_count_remove(favs: Seq<(i32, i32)>, k: int, aid: i32)
    requires
        0 <= k < favs.len(),
    ensures
        fav_count(favs.remove(k), aid) == fav_count(favs, aid) - if favs[k].1 == aid {
            1int
        } else {
            0int
        },
    decreases favs.len(),
{
    if k == favs.len() - 1 {
        assert(favs.remove(k) =~= favs.drop_last());
    } else {
        lemma_fav_count_remove(favs.drop_last(), k, aid);
        assert(favs.remove(k).drop_last() =~= favs.drop_last().remove(k));
        assert(favs.remove(k).last() == favs.last());
    }
}

pub proof fn lemma_fav_count_none(favs: Seq<(i32, i32)>, aid: i32)
    requires
        forall|k: int| 0 <= k < favs.len() ==> (#[trigger] favs[k]).1 != aid,
    ensures
        fav_count(favs, aid) == 0,
    decreases favs.len(),
{
    if favs.len() > 0 {
        lemma_fav_count_none(favs.drop_last(), aid);
    }
}

impl Store {
    /// Whether some stored slug is a slug for `title`: only then can a fresh
    /// slug for that title collide.
    pub open(crate) spec fn title_slug_taken(self, title: Seq<char>) -> bool {
        exists|i: int|
            0 <= i < self.articles@.len() && is_slug_for((#[trigger] self.articles@[i]).slug@, title)
    }

    pub open(crate) spec fn slug_taken(self, slug: Seq<char>) -> bool {
        exists|i: int| 0 <= i < self.articles@.len() && (#[trigger] self.articles@[i]).slug@ == slug
    }

    /// Whether `v` is the article with this slug as `viewer` sees it.
    pub open(crate) spec fn shows_slug(self, v: Article, slug: Seq<char>, viewer: Option<i32>) -> bool {
        exists|i: int|
            0 <= i < self.articles@.len() && (#[trigger] self.articles@[i]).slug@ == slug
                && self.shows(v, self.articles@[i], viewer)
    }

    /// The tables other than articles and favorites are the same in `post`.
    pub open(crate) spec fn same_except_favorites(self, post: Store) -> bool {
        &&& post.users@ == self.users@
        &&& post.comments@ == self.comments@
        &&& post.tags@ == self.tags@
        &&& post.article_tags@ == self.article_tags@
        &&& post.followings@ == self.followings@
        &&& post.next_article_id == self.next_article_id
        &&& post.next_comment_id == self.next_comment_id
        &&& post.clock == self.clock
    }

    /// `post` is this store after user `u` favorited the article with this slug:
    /// the edge added and the article's counter one higher.
    pub open(crate) spec fn favorite_applied(self, post: Store, u: i32, slug: Seq<char>) -> bool {
        &&& self.same_except_favorites(post)
        &&& self.valid_user(u)
        &&& exists|i: int|
            0 <= i < self.articles@.len() && (#[trigger] self.articles@[i]).slug@ == slug && {
                let a = self.articles@[i];
                &&& !self.favorites@.contains((u, a.id))
                &&& a.favorites_count < i32::MAX
                &&& post.favorites@ == self.favorites@.push((u, a.id))
                &&& post.articles@ == self.articles@.update(
                    i,
                    with_count(a, a.favorites_count + 1),
                )
            }
    }

    /// `post` is this store after user `u` unfavorited the article with this
    /// slug: the edge removed and the article's counter one lower.
    pub open(crate) spec fn unfavorite_applied(self, post: Store, u: i32, slug: Seq<char>) -> bool {
        &&& self.same_except_favorites(post)
        &&& exists|i: int, k: int|
            0 <= i < self.articles@.len() && 0 <= k < self.favorites@.len()
                && (#[trigger] self.articles@[i]).slug@ == slug && {
                let a = self.articles@[i];
                &&& #[trigger] self.favorites@[k] == (u, a.id)
                &&& post.favorites@ == self.favorites@.remove(k)
                &&& post.articles@ == self.articles@.update(
                    i,
                    with_count(a, a.favorites_count - 1),
                )
            }
    }
}


/// Whether some text of `list` reads `x`.
pub open spec fn has_text(list: Seq<String>, x: Seq<char>) -> bool {
    exists|j: int| 0 <= j < list.len() && (#[trigger] list[j])@ == x
}

pub proof fn lemma_tag_names_has(assoc: Seq<(i32, i32)>, tags: Seq<TagRecord>, aid: i32, x: Seq<char>)
    ensures
        has_text(tag_names(assoc, tags, aid), x) <==> (exists|k: int|
            0 <= k < assoc.len() && (#[trigger] assoc[k]).0 == aid && tags[assoc[k].1 - 1].tag@ == x),
    decreases assoc.len(),
{
    if assoc.len() > 0 {
        let d = assoc.drop_last();
        lemma_tag_names_has(d, tags, aid, x);
        let prev = tag_names(d, tags, aid);
        let cur = tag_names(assoc, tags, aid);
        if (exists|k: int| 0 <= k < assoc.len() && (#[trigger] assoc[k]).0 == aid && tags[assoc[k].1 - 1].tag@ == x) {
            let k = choose|k: int| 0 <= k < assoc.len() && (#[trigger] assoc[k]).0 == aid && tags[assoc[k].1 - 1].tag@ == x;
            if k < d.len() {
                assert(d[k] == assoc[k]);
                let j = choose|j: int| 0 <= j < prev.len() && (#[trigger] prev[j])@ == x;
                assert(cur[j] == prev[j]);
            } else {
                assert(cur[prev.len() as int]@ == x);
            }
        }
        if (exists|j: int| 0 <= j < cur.len() && (#[trigger] cur[j])@ == x) {
            let j = choose|j: int| 0 <= j < cur.len() && (#[trigger] cur[j])@ == x;
            if j < prev.len() {
                assert(prev[j] == cur[j]);
                let k = choose|k: int| 0 <= k < d.len() && (#[trigger] d[k]).0 == aid && tags[d[k].1 - 1].tag@ == x;
                assert(assoc[k] == d[k]);
            } else {
                assert(assoc[assoc.len() - 1].0 == aid);
            }
        }
    }
}

pub proof fn lemma_tag_names_more_tags(assoc: Seq<(i32, i32)>, tags: Seq<TagRecord>, t: TagRecord, aid: i32)
    requires
        forall|k: int| 0 <= k < assoc.len() ==> 1 <= (#[trigger] assoc[k]).1 <= tags.len(),
    ensures
        tag_names(assoc, tags.push(t), aid) == tag_names(assoc, tags, aid),
    decreases assoc.len(),
{
    if assoc.len() > 0 {
        let d = assoc.drop_last();
        assert forall|k: int| 0 <= k < d.len() implies 1 <= (#[trigger] d[k]).1 <= tags.len() by {
            assert(d[k] == assoc[k]);
        }
        lemma_tag_names_more_tags(d, tags, t, aid);
        assert(1 <= assoc[assoc.len() - 1].1 <= tags.len());
    }
}

pub proof fn lemma_tag_names_none(assoc: Seq<(i32, i32)>, tags: Seq<TagRecord>, aid: i32)
    requires
        forall|k: int| 0 <= k < assoc.len() ==> (#[trigger] assoc[k]).0 != aid,
    ensures
        tag_names(assoc, tags, aid) == Seq::<String>::empty(),
    decreases assoc.len(),
{
    if assoc.len() > 0 {
        let d = assoc.drop_last();
        assert forall|k: int| 0 <= k < d.len() implies (#[trigger] d[k]).0 != aid by {
            assert(d[k] == assoc[k]);
        }
        lemma_tag_names_none(d, tags, aid);
        assert(assoc[assoc.len() - 1].0 != aid);
    }
}

impl Store {
    /// Everything but the articles, tags and tag associations is the same in `post`.
    pub open(crate) spec fn same_except_articles(self, post: Store) -> bool {
        &&& post.users@ == self.users@
        &&& post.comments@ == self.comments@
        &&& post.favorites@ == self.favorites@
        &&& post.followings@ == self.followings@
        &&& post.next_comment_id == self.next_comment_id
    }

    /// Where the tag with text `t` is, if anywhere.
    pub(crate) fn find_tag(&self, t: &String) -> (r: Option<usize>)
        ensures
            r matches Some(i) ==> i < self.tags@.len() && self.tags@[i as int].tag@ == t@,
            r is None ==> forall|j: int| 0 <= j < self.tags@.len() ==> (#[trigger] self.tags@[j]).tag@ != t@,
    {
        let mut i: usize = 0;
        while i < self.tags.len()
            invariant
                i <= self.tags@.len(),
                forall|j: int| 0 <= j < i ==> (#[trigger] self.tags@[j]).tag@ != t@,
            decreases self.tags@.len() - i,
        {
            if self.tags[i].tag == *t {
                return Some(i);
            }
            i = i + 1;
        }
        None
    }

    /// The id of the tag with text `t`, the tag added first when absent.
    pub(crate) fn upsert_tag(&mut self, t: &String) -> (id: i32)
        requires
            old(self).wf(),
            old(self).tags@.len() < i32::MAX - 1,
        ensures
            final(self).wf(),
            1 <= id <= final(self).tags@.len(),
            final(self).tags@[id - 1].tag@ == t@,
            old(self).tags@.len() <= final(self).tags@.len() <= old(self).tags@.len() + 1,
            final(self).tags@.len() > old(self).tags@.len() ==> final(self).tags@[old(self).tags@.len() as int].tag@ == t@,
            forall|k: int| 0 <= k < old(self).tags@.len() ==> final(self).tags@[k] == old(self).tags@[k],
            final(self).articles@ == old(self).articles@,
            final(self).article_tags@ == old(self).article_tags@,
            old(self).same_except_articles(*final(self)),
            final(self).next_article_id == old(self).next_article_id,
            final(self).clock == old(self).clock,
    {
        match self.find_tag(t) {
            Some(i) => {
                return self.tags[i].id;
            },
            None => {},
        }
        let id = (self.tags.len() + 1) as i32;
        self.tags.push(TagRecord { id, tag: t.clone() });
        proof {
            let olds = *old(self);
            assert(self.articles@ == olds.articles@);
            lemma_references_kept(olds, *self);
        }
        id
    }
}


/// Ids present in `a` are present in `b` when `b` keeps `a`'s ids in place.
pub proof fn lemma_article_ids_kept(a: Seq<PGArticle>, b: Seq<PGArticle>, x: i32)
    requires
        a.len() <= b.len(),
        forall|i: int| 0 <= i < a.len() ==> (#[trigger] b[i]).id == a[i].id,
        exists|i: int| 0 <= i < a.len() && (#[trigger] a[i]).id == x,
    ensures
        exists|i: int| 0 <= i < b.len() && (#[trigger] b[i]).id == x,
{
    let w = choose|w: int| 0 <= w < a.len() && (#[trigger] a[w]).id == x;
    assert(b[w].id == x);
}

impl Store {
    /// Associates tag `tag_id` with article `aid`, unless already associated.
    pub(crate) fn associate(&mut self, aid: i32, tag_id: i32)
        requires
            old(self).wf(),
            old(self).has_article_id(aid),
            1 <= tag_id <= old(self).tags@.len(),
        ensures
            final(self).wf(),
            final(self).article_tags@.contains((aid, tag_id)),
            old(self).article_tags@.contains((aid, tag_id)) ==> final(self).article_tags@
                == old(self).article_tags@,
            !old(self).article_tags@.contains((aid, tag_id)) ==> final(self).article_tags@
                == old(self).article_tags@.push((aid, tag_id)),
            final(self).tags@ == old(self).tags@,
            final(self).articles@ == old(self).articles@,
            old(self).same_except_articles(*final(self)),
            final(self).next_article_id == old(self).next_article_id,
            final(self).clock == old(self).clock,
    {
        if has_pair(&self.article_tags, (aid, tag_id)) {
            return;
        }
        self.article_tags.push((aid, tag_id));
        proof {
            let olds = *old(self);
            assert forall|k: int| 0 <= k < self.article_tags@.len() implies {
                let p = #[trigger] self.article_tags@[k];
                &&& 1 <= p.1 <= self.tags@.len()
                &&& self.has_article_id(p.0)
            } by {
                let x = self.article_tags@[k].0;
                if k < olds.article_tags@.len() {
                    assert(self.article_tags@[k] == olds.article_tags@[k]);
                    assert(olds.has_article_id(x));
                } else {
                    assert(x == aid);
                }
                lemma_article_ids_kept(olds.articles@, self.articles@, x);
            }
            assert(self.article_tags@.no_duplicates()) by {
                assert forall|p: int, q: int| 0 <= p < q < self.article_tags@.len() implies self.article_tags@[p] != self.article_tags@[q] by {
                    if q == olds.article_tags@.len() {
                        assert(olds.article_tags@[p] == self.article_tags@[p]);
                    }
                }
            }
            assert(self.article_tags@[self.article_tags@.len() - 1] == (aid, tag_id));
        }
    }

    /// Appends a new article row.
    pub(crate) fn insert_article(&mut self, row: PGArticle)
        requires
            old(self).wf(),
            row.id == old(self).next_article_id,
            old(self).next_article_id < i32::MAX,
            old(self).clock <= row.created_at,
            row.updated_at == row.created_at,
            old(self).valid_user(row.author),
            !old(self).slug_taken(row.slug@),
            row.favorites_count == 0,
        ensures
            final(self).wf(),
            final(self).articles@ == old(self).articles@.push(row),
            final(self).next_article_id == old(self).next_article_id + 1,
            final(self).clock == row.created_at,
            final(self).tags@ == old(self).tags@,
            final(self).article_tags@ == old(self).article_tags@,
            old(self).same_except_articles(*final(self)),
    {
        let ghost olds = *self;
        proof {
            assert forall|k: int| 0 <= k < olds.favorites@.len() implies (#[trigger] olds.favorites@[k]).1 != row.id by {
                let w = choose|w: int| 0 <= w < olds.articles@.len() && (#[trigger] olds.articles@[w]).id == olds.favorites@[k].1;
            }
            lemma_fav_count_none(olds.favorites@, row.id);
        }
        let stamp = row.created_at;
        self.articles.push(row);
        self.next_article_id = self.next_article_id + 1;
        self.clock = stamp;
        proof {
            assert forall|x: i32| olds.has_article_id(x) implies self.has_article_id(x) by {
                lemma_article_ids_kept(olds.articles@, self.articles@, x);
            }
            assert forall|i: int, j: int| 0 <= i < j < self.articles@.len() implies {
                &&& (#[trigger] self.articles@[i]).id < (#[trigger] self.articles@[j]).id
                &&& self.articles@[i].created_at <= self.articles@[j].created_at
                &&& self.articles@[i].slug@ != self.articles@[j].slug@
            } by {
                if j == olds.articles@.len() {
                    assert(self.articles@[i] == olds.articles@[i]);
                }
            }
            assert forall|k: int| 0 <= k < self.article_tags@.len() implies self.has_article_id((#[trigger] self.article_tags@[k]).0) by {
                assert(olds.has_article_id(olds.article_tags@[k].0));
            }
            assert forall|k: int| 0 <= k < self.favorites@.len() implies self.has_article_id((#[trigger] self.favorites@[k]).1) by {
                assert(olds.has_article_id(olds.favorites@[k].1));
            }
            assert forall|c: int| 0 <= c < self.comments@.len() implies self.has_article_id((#[trigger] self.comments@[c]).article_id) by {
                assert(olds.has_article_id(olds.comments@[c].article_id));
            }
        }
    }
}


pub proof fn lemma_has_text_push(s: Seq<String>, e: String, x: Seq<char>)
    ensures
        has_text(s.push(e), x) <==> (has_text(s, x) || e@ == x),
{
    if has_text(s.push(e), x) {
        let j = choose|j: int| 0 <= j < s.push(e).len() && (#[trigger] s.push(e)[j])@ == x;
        if j < s.len() {
            assert(s[j] == s.push(e)[j]);
        }
    }
    if has_text(s, x) {
        let j = choose|j: int| 0 <= j < s.len() && (#[trigger] s[j])@ == x;
        assert(s.push(e)[j] == s[j]);
    }
    if e@ == x {
        assert(s.push(e)[s.len() as int] == e);
    }
}


/// The article id of an edge: its first member for tag associations, its
/// second for favorites.
pub open spec fn edge_key(p: (i32, i32), first: bool) -> i32 {
    if first {
        p.0
    } else {
        p.1
    }
}

/// Removes every edge whose article id is `aid`, keeping the order of the rest.
pub(crate) fn remove_edges_of(v: &mut Vec<(i32, i32)>, aid: i32, first: bool)
    requires
        old(v)@.no_duplicates(),
    ensures
        final(v)@.no_duplicates(),
        forall|q: int| 0 <= q < final(v)@.len() ==> edge_key(#[trigger] final(v)@[q], first) != aid,
        forall|p: (i32, i32)| #[trigger] final(v)@.contains(p) <==> (old(v)@.contains(p) && edge_key(p, first) != aid),
        !first ==> forall|a: i32| a != aid ==> #[trigger] fav_count(final(v)@, a) == fav_count(old(v)@, a),
{
    let ghost orig = v@;
    let mut k: usize = 0;
    while k < v.len()
        invariant
            k <= v@.len(),
            v@.no_duplicates(),
            forall|q: int| 0 <= q < k ==> edge_key(#[trigger] v@[q], first) != aid,
            forall|p: (i32, i32)| #[trigger] v@.contains(p) <==> (orig.contains(p) && (edge_key(p, first) != aid || exists|q: int| k <= q < v@.len() && v@[q] == p)),
            !first ==> forall|a: i32| a != aid ==> #[trigger] fav_count(v@, a) == fav_count(orig, a),
        decreases v@.len() - k,
    {
        let p = v[k];
        if (first && p.0 == aid) || (!first && p.1 == aid) {
            let ghost before = v@;
            proof {
                if !first {
                    assert forall|a: i32| a != aid implies #[trigger] fav_count(before.remove(k as int), a) == fav_count(before, a) by {
                        lemma_fav_count_remove(before, k as int, a);
                    }
                }
            }
            v.remove(k);
            proof {
                assert forall|x: int, y: int| 0 <= x < y < v@.len() implies v@[x] != v@[y] by {
                    let xx = if x < k { x } else { x + 1 };
                    let yy = if y < k { y } else { y + 1 };
                    assert(v@[x] == before[xx]);
                    assert(v@[y] == before[yy]);
                }
                assert forall|p2: (i32, i32)| #[trigger] v@.contains(p2) <==> (orig.contains(p2) && (edge_key(p2, first) != aid || exists|q: int| k <= q < v@.len() && v@[q] == p2)) by {
                    if v@.contains(p2) {
                        let w = choose|w: int| 0 <= w < v@.len() && v@[w] == p2;
                        let ww = if w < k { w } else { w + 1 };
                        assert(before[ww] == p2);
                        assert(before.contains(p2));
                    }
                    if orig.contains(p2) && edge_key(p2, first) != aid {
                        assert(before.contains(p2));
                        let w = choose|w: int| 0 <= w < before.len() && before[w] == p2;
                        assert(w != k);
                        let ww = if w < k { w } else { w - 1 };
                        assert(v@[ww] == p2);
                    }
                    if orig.contains(p2) && (exists|q: int| k <= q < v@.len() && v@[q] == p2) {
                        let q = choose|q: int| k <= q < v@.len() && v@[q] == p2;
                        assert(v@.contains(p2)) by { assert(v@[q] == p2); }
                    }
                }
            }
        } else {
            proof {
                assert forall|p2: (i32, i32)| #[trigger] v@.contains(p2) <==> (orig.contains(p2) && (edge_key(p2, first) != aid || exists|q: int| k + 1 <= q < v@.len() && v@[q] == p2)) by {
                    if v@.contains(p2) && edge_key(p2, first) == aid {
                        let q = choose|q: int| k <= q < v@.len() && v@[q] == p2;
                        assert(q != k);
                    }
                }
            }
            k = k + 1;
        }
    }
}


pub open spec fn comments_ordered(s: Seq<CommentQuery>) -> bool {
    forall|i: int, j: int|
        0 <= i < j < s.len() ==> {
            &&& (#[trigger] s[i]).id < (#[trigger] s[j]).id
            &&& s[i].created_at <= s[j].created_at
        }
}

/// Removes every comment on article `aid`, keeping the order of the rest.
pub(crate) fn remove_comments_of(v: &mut Vec<CommentQuery>, aid: i32)
    ensures
        forall|q: int| 0 <= q < final(v)@.len() ==> (#[trigger] final(v)@[q]).article_id != aid,
        forall|q: int| 0 <= q < final(v)@.len() ==> old(v)@.contains(#[trigger] final(v)@[q]),
        comments_ordered(old(v)@) ==> comments_ordered(final(v)@),
        final(v)@.len() <= old(v)@.len(),
        forall|c: CommentQuery| #[trigger] final(v)@.contains(c) <==> (old(v)@.contains(c) && c.article_id != aid),
{
    let ghost orig = v@;
    let mut k: usize = 0;
    while k < v.len()
        invariant
            k <= v@.len(),
            forall|q: int| 0 <= q < k ==> (#[trigger] v@[q]).article_id != aid,
            forall|q: int| 0 <= q < v@.len() ==> orig.contains(#[trigger] v@[q]),
            comments_ordered(orig) ==> comments_ordered(v@),
            v@.len() <= orig.len(),
            forall|c: CommentQuery| orig.contains(c) && c.article_id != aid ==> #[trigger] v@.contains(c),
        decreases v@.len() - k,
    {
        if v[k].article_id == aid {
            let ghost before = v@;
            v.remove(k);
            proof {
                assert forall|q: int| 0 <= q < v@.len() implies orig.contains(#[trigger] v@[q]) by {
                    let qq = if q < k { q } else { q + 1 };
                    assert(v@[q] == before[qq]);
                }
                assert forall|c: CommentQuery| orig.contains(c) && c.article_id != aid implies #[trigger] v@.contains(c) by {
                    assert(before.contains(c));
                    let w = choose|w: int| 0 <= w < before.len() && before[w] == c;
                    assert(w != k);
                    let ww = if w < k { w } else { w - 1 };
                    assert(v@[ww] == c);
                }
                if comments_ordered(orig) {
                    assert forall|x: int, y: int| 0 <= x < y < v@.len() implies {
                        &&& (#[trigger] v@[x]).id < (#[trigger] v@[y]).id
                        &&& v@[x].created_at <= v@[y].created_at
                    } by {
                        let xx = if x < k { x } else { x + 1 };
                        let yy = if y < k { y } else { y + 1 };
                        assert(v@[x] == before[xx]);
                        assert(v@[y] == before[yy]);
                    }
                }
            }
        } else {
            k = k + 1;
        }
    }
}


pub proof fn lemma_id_survives(a: Seq<PGArticle>, i: int, x: i32)
    requires
        0 <= i < a.len(),
        a[i].id != x,
        exists|w: int| 0 <= w < a.len() && (#[trigger] a[w]).id == x,
    ensures
        exists|w: int| 0 <= w < a.remove(i).len() && (#[trigger] a.remove(i)[w]).id == x,
{
    let w = choose|w: int| 0 <= w < a.len() && (#[trigger] a[w]).id == x;
    let ww = if w < i { w } else { w - 1 };
    assert(a.remove(i)[ww] == a[w]);
}

impl Store {
    /// Removes article `i` together with its favorites, tag associations and comments.
    pub(crate) fn remove_article(&mut self, i: usize)
        requires
            old(self).wf(),
            i < old(self).articles@.len(),
        ensures
            final(self).wf(),
            final(self).articles@ == old(self).articles@.remove(i as int),
            forall|p: (i32, i32)| #[trigger] final(self).favorites@.contains(p) <==> (old(self).favorites@.contains(p) && p.1 != old(self).articles@[i as int].id),
            forall|p: (i32, i32)| #[trigger] final(self).article_tags@.contains(p) <==> (old(self).article_tags@.contains(p) && p.0 != old(self).articles@[i as int].id),
            forall|c: CommentQuery| #[trigger] final(self).comments@.contains(c) <==> (old(self).comments@.contains(c) && c.article_id != old(self).articles@[i as int].id),
            forall|q: int| 0 <= q < final(self).comments@.len() ==> old(self).comments@.contains(#[trigger] final(self).comments@[q]),
            forall|q: int| 0 <= q < final(self).comments@.len() ==> (#[trigger] final(self).comments@[q]).article_id != old(self).articles@[i as int].id,
            final(self).users@ == old(self).users@,
            final(self).tags@ == old(self).tags@,
            final(self).followings@ == old(self).followings@,
            final(self).next_article_id == old(self).next_article_id,
            final(self).next_comment_id == old(self).next_comment_id,
            final(self).clock == old(self).clock,
    {
        let ghost olds = *self;
        let aid = self.articles[i].id;
        self.articles.remove(i);
        remove_edges_of(&mut self.favorites, aid, false);
        remove_edges_of(&mut self.article_tags, aid, true);
        remove_comments_of(&mut self.comments, aid);
        proof {
            let oa = olds.articles@;
            assert forall|j: int| 0 <= j < self.articles@.len() implies {
                let a = #[trigger] self.articles@[j];
                &&& 0 < a.id < self.next_article_id
                &&& a.created_at <= self.clock
                &&& a.updated_at <= self.clock
                &&& self.valid_user(a.author)
                &&& a.favorites_count == fav_count(self.favorites@, a.id)
            } by {
                let jj = if j < i { j } else { j + 1 };
                assert(self.articles@[j] == oa[jj]);
                if jj < i { assert(oa[jj].id < oa[i as int].id); }
                else { assert(oa[i as int].id < oa[jj].id); }
            }
            assert forall|x: int, y: int| 0 <= x < y < self.articles@.len() implies {
                &&& (#[trigger] self.articles@[x]).id < (#[trigger] self.articles@[y]).id
                &&& self.articles@[x].created_at <= self.articles@[y].created_at
                &&& self.articles@[x].slug@ != self.articles@[y].slug@
            } by {
                let xx = if x < i { x } else { x + 1 };
                let yy = if y < i { y } else { y + 1 };
                assert(self.articles@[x] == oa[xx]);
                assert(self.articles@[y] == oa[yy]);
            }
            assert forall|k: int| 0 <= k < self.favorites@.len() implies {
                let p = #[trigger] self.favorites@[k];
                &&& self.valid_user(p.0)
                &&& self.has_article_id(p.1)
            } by {
                let p = self.favorites@[k];
                assert(self.favorites@.contains(p));
                let w = choose|w: int| 0 <= w < olds.favorites@.len() && olds.favorites@[w] == p;
                assert(olds.has_article_id(olds.favorites@[w].1));
                lemma_id_survives(oa, i as int, p.1);
            }
            assert forall|k: int| 0 <= k < self.article_tags@.len() implies {
                let p = #[trigger] self.article_tags@[k];
                &&& 1 <= p.1 <= self.tags@.len()
                &&& self.has_article_id(p.0)
            } by {
                let p = self.article_tags@[k];
                assert(self.article_tags@.contains(p));
                let w = choose|w: int| 0 <= w < olds.article_tags@.len() && olds.article_tags@[w] == p;
                assert(olds.has_article_id(olds.article_tags@[w].0));
                lemma_id_survives(oa, i as int, p.0);
            }
            assert forall|c: int| 0 <= c < self.comments@.len() implies {
                let cm = #[trigger] self.comments@[c];
                &&& 0 < cm.id < self.next_comment_id
                &&& cm.created_at <= self.clock
                &&& self.valid_user(cm.user_id)
                &&& self.has_article_id(cm.article_id)
            } by {
                let cm = self.comments@[c];
                let w = choose|w: int| 0 <= w < olds.comments@.len() && olds.comments@[w] == cm;
                assert(olds.has_article_id(olds.comments@[w].article_id));
                lemma_id_survives(oa, i as int, cm.article_id);
            }
            assert(comments_ordered(olds.comments@));
            assert(comments_ordered(self.comments@));
        }
    }
}


pub(crate) proof fn lemma_has_article_id_same(a: Store, b: Store, x: i32)
    requires
        a.articles@ == b.articles@,
        a.has_article_id(x),
    ensures
        b.has_article_id(x),
{
    let w = choose|w: int| 0 <= w < a.articles@.len() && (#[trigger] a.articles@[w]).id == x;
    assert(b.articles@[w].id == x);
}


/// With association pairs distinct and tag texts distinct, no text appears
/// twice among an article's tags.
pub proof fn lemma_tag_names_distinct(assoc: Seq<(i32, i32)>, tags: Seq<TagRecord>, aid: i32)
    requires
        assoc.no_duplicates(),
        forall|k: int| 0 <= k < assoc.len() ==> 1 <= (#[trigger] assoc[k]).1 <= tags.len(),
        forall|i: int, j: int| 0 <= i < j < tags.len() ==> (#[trigger] tags[i]).tag@ != (#[trigger] tags[j]).tag@,
    ensures
        forall|i: int, j: int|
            0 <= i < j < tag_names(assoc, tags, aid).len() ==> (#[trigger] tag_names(assoc, tags, aid)[i])@
                != (#[trigger] tag_names(assoc, tags, aid)[j])@,
    decreases assoc.len(),
{
    if assoc.len() > 0 {
        let d = assoc.drop_last();
        let last = assoc.last();
        assert forall|k: int| 0 <= k < d.len() implies 1 <= (#[trigger] d[k]).1 <= tags.len() by {
            assert(d[k] == assoc[k]);
        }
        lemma_tag_names_distinct(d, tags, aid);
        if last.0 == aid {
            let prev = tag_names(d, tags, aid);
            let x = tags[last.1 - 1].tag@;
            lemma_tag_names_has(d, tags, aid, x);
            if has_text(prev, x) {
                let k = choose|k: int| 0 <= k < d.len() && (#[trigger] d[k]).0 == aid && tags[d[k].1 - 1].tag@ == x;
                assert(assoc[k] == d[k]);
                if d[k].1 != last.1 {
                    let a = d[k].1 - 1;
                    let b = last.1 - 1;
                    if a < b { assert(tags[a].tag@ != tags[b].tag@); } else { assert(tags[b].tag@ != tags[a].tag@); }
                }
                assert(assoc[k] == assoc[assoc.len() - 1]);
            }
            let cur = tag_names(assoc, tags, aid);
            assert forall|i: int, j: int| 0 <= i < j < cur.len() implies (#[trigger] cur[i])@ != (#[trigger] cur[j])@ by {
                if j == prev.len() {
                    assert(cur[i] == prev[i]);
                    if cur[i]@ == x {
                        assert(has_text(prev, x));
                    }
                } else {
                    assert(cur[i] == prev[i]);
                    assert(cur[j] == prev[j]);
                }
            }
        } else {
            assert(tag_names(assoc, tags, aid) == tag_names(d, tags, aid));
        }
    }
}


/// Rows in store order: ids increasing, creation times non-decreasing.
pub open spec fn articles_ordered(rows: Seq<PGArticle>) -> bool {
    forall|i: int, j: int|
        0 <= i < j < rows.len() ==> (#[trigger] rows[i]).id < (#[trigger] rows[j]).id
            && rows[i].created_at <= rows[j].created_at
}

pub proof fn lemma_newest_first_from(rows: Seq<PGArticle>, keep: spec_fn(PGArticle) -> bool, k: int)
    requires
        0 <= k < newest_first(rows, keep).len(),
    ensures
        exists|i: int| 0 <= i < rows.len() && rows[i] == newest_first(rows, keep)[k],
    decreases rows.len(),
{
    let tail = rows.subrange(1, rows.len() as int);
    let rest = newest_first(tail, keep);
    if k < rest.len() {
        lemma_newest_first_from(tail, keep, k);
        let i = choose|i: int| 0 <= i < tail.len() && tail[i] == rest[k];
        assert(rows[i + 1] == tail[i]);
    } else {
        assert(rows[0] == newest_first(rows, keep)[k]);
    }
}

/// Over rows in store order, `newest_first` runs by creation time, newest
/// first, ties broken by the higher id.
pub proof fn lemma_newest_first_ordered(rows: Seq<PGArticle>, keep: spec_fn(PGArticle) -> bool)
    requires
        articles_ordered(rows),
    ensures
        forall|p: int, q: int|
            0 <= p < q < newest_first(rows, keep).len() ==> (#[trigger] newest_first(rows, keep)[p]).id
                > (#[trigger] newest_first(rows, keep)[q]).id && newest_first(rows, keep)[p].created_at
                >= newest_first(rows, keep)[q].created_at,
    decreases rows.len(),
{
    if rows.len() > 0 {
        let tail = rows.subrange(1, rows.len() as int);
        assert(articles_ordered(tail)) by {
            assert forall|i: int, j: int| 0 <= i < j < tail.len() implies (#[trigger] tail[i]).id < (#[trigger] tail[j]).id
                && tail[i].created_at <= tail[j].created_at by {
                assert(tail[i] == rows[i + 1]);
                assert(tail[j] == rows[j + 1]);
            }
        }
        lemma_newest_first_ordered(tail, keep);
        let rest = newest_first(tail, keep);
        let cur = newest_first(rows, keep);
        assert forall|p: int, q: int| 0 <= p < q < cur.len() implies (#[trigger] cur[p]).id > (#[trigger] cur[q]).id
            && cur[p].created_at >= cur[q].created_at by {
            if q == rest.len() {
                assert(cur[p] == rest[p]);
                lemma_newest_first_from(tail, keep, p);
                let i = choose|i: int| 0 <= i < tail.len() && tail[i] == rest[p];
                assert(tail[i] == rows[i + 1]);
                assert(cur[q] == rows[0]);
            } else {
                assert(cur[p] == rest[p]);
                assert(cur[q] == rest[q]);
            }
        }
    }
}


/// A store whose articles, tag associations, favorites and comments are
/// those of a well-formed one still has every referenced article.
pub(crate) proof fn lemma_references_kept(s0: Store, s1: Store)
    requires
        s0.wf(),
        s1.articles@ == s0.articles@,
        s1.article_tags@ == s0.article_tags@,
        s1.favorites@ == s0.favorites@,
        s1.comments@ == s0.comments@,
    ensures
        forall|k: int| 0 <= k < s1.article_tags@.len() ==> s1.has_article_id((#[trigger] s1.article_tags@[k]).0),
        forall|k: int| 0 <= k < s1.favorites@.len() ==> s1.has_article_id((#[trigger] s1.favorites@[k]).1),
        forall|c: int| 0 <= c < s1.comments@.len() ==> s1.has_article_id((#[trigger] s1.comments@[c]).article_id),
{
    assert forall|x: i32| s0.has_article_id(x) implies s1.has_article_id(x) by {
        lemma_has_article_id_same(s0, s1, x);
    }
    assert forall|k: int| 0 <= k < s1.article_tags@.len() implies s1.has_article_id((#[trigger] s1.article_tags@[k]).0) by {
        assert(s0.has_article_id(s0.article_tags@[k].0));
    }
    assert forall|k: int| 0 <= k < s1.favorites@.len() implies s1.has_article_id((#[trigger] s1.favorites@[k]).1) by {
        assert(s0.has_article_id(s0.favorites@[k].1));
    }
    assert forall|c: int| 0 <= c < s1.comments@.len() implies s1.has_article_id((#[trigger] s1.comments@[c]).article_id) by {
        assert(s0.has_article_id(s0.comments@[c].article_id));
    }
}

} // verus!
