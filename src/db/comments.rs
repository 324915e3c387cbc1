use crate::db::articles::stamp;
use crate::db::get_comments::get_comments;
use crate::db::store::{comments_ordered, lemma_has_article_id_same, Store};
use crate::errors::{DbResult, Error};
use crate::models::comment::{Comment, CommentList, CommentQuery, NewCommentData};
use crate::sanitize::{clean, cleaned};
use vstd::prelude::*;
use vstd::string::StringExecFns;

verus! {

/// The comments on article `aid`, newest first: the reverse of their store
/// order, which the store keeps by creation time and id.
pub open spec fn comments_newest(rows: Seq<CommentQuery>, aid: i32) -> Seq<CommentQuery>
    decreases rows.len(),
{
    if rows.len() == 0 {
        seq![]
    } else {
        let rest = comments_newest(rows.subrange(1, rows.len() as int), aid);
        if rows[0].article_id == aid {
            rest.push(rows[0])
        } else {
            rest
        }
    }
}

impl Store {
    /// Whether `c` is stored comment `q` as `viewer` sees its author.
    pub open(crate) spec fn shows_comment(self, c: Comment, q: CommentQuery, viewer: Option<i32>) -> bool {
        &&& q.shown_as(c, c.author)
        &&& self.shows_profile(c.author, q.user_id, viewer)
    }

    /// Whether `list` holds the comments on the article with this slug, newest
    /// first, as `viewer` sees them, with their number.
    pub open(crate) spec fn is_comment_list(self, list: CommentList, slug: Seq<char>, viewer: Option<i32>) -> bool {
        exists|i: int|
            0 <= i < self.article_rows().len() && (#[trigger] self.article_rows()[i]).slug@ == slug && {
                let cs = comments_newest(self.comment_rows(), self.article_rows()[i].id);
                &&& list.comments_count == cs.len()
                &&& list.comments@.len() == cs.len()
                &&& forall|j: int|
                    0 <= j < cs.len() ==> self.shows_comment(#[trigger] list.comments@[j], cs[j], viewer)
            }
    }

    /// The outcome of `create`: what `post` and `r` are, from this store.
    pub open(crate) spec fn comment_created(self, post: Store, user: i32, slug: Seq<char>, comment: NewCommentData, now: i64, r: DbResult<Comment>) -> bool {
        &&& (r is Err ==> post == self)
        &&& (r matches Err(e) ==> (e is NotFound <==> !self.slug_taken(slug) || !(1 <= user
            <= self.user_rows().len())))
        &&& (r matches Err(e) ==> e is NotFound || e is InternalServerError)
        &&& (self.slug_taken(slug) && 1 <= user <= self.user_rows().len()
            && self.next_comment_id_value() < i32::MAX ==> r is Ok)
        &&& (r matches Ok(c) ==> exists|i: int|
            0 <= i < self.article_rows().len() && (#[trigger] self.article_rows()[i]).slug@
            == slug && {
            let rows = post.comment_rows();
            let q = rows.last();
            &&& rows == self.comment_rows().push(q)
            &&& q.article_id == self.article_rows()[i].id
            &&& q.user_id == user
            &&& q.body@ == cleaned(comment.body@)
            &&& q.created_at == stamp(now, self.clock_value())
            &&& q.updated_at == q.created_at
            &&& post.shows_comment(c, q, Some(user))
            })
        &&& (r is Ok ==> self.same_except_comments(post))
    }

    /// Whether comment `comment_id` exists on the article with this slug.
    pub open(crate) spec fn has_comment(self, slug: Seq<char>, comment_id: i32) -> bool {
        exists|i: int, k: int|
            0 <= i < self.article_rows().len() && 0 <= k < self.comment_rows().len()
                && (#[trigger] self.article_rows()[i]).slug@ == slug
                && (#[trigger] self.comment_rows()[k]).id == comment_id
                && self.comment_rows()[k].article_id == self.article_rows()[i].id
    }

    /// Whether comment `comment_id` exists on the article with this slug and
    /// is by `user`.
    pub open(crate) spec fn has_comment_by(self, slug: Seq<char>, comment_id: i32, user: i32) -> bool {
        exists|i: int, k: int|
            0 <= i < self.article_rows().len() && 0 <= k < self.comment_rows().len()
                && (#[trigger] self.article_rows()[i]).slug@ == slug
                && (#[trigger] self.comment_rows()[k]).id == comment_id
                && self.comment_rows()[k].article_id == self.article_rows()[i].id
                && self.comment_rows()[k].user_id == user
    }

    /// Everything but the comments and the clock is the same in `post`.
    pub open(crate) spec fn same_except_comments(self, post: Store) -> bool {
        &&& post.users@ == self.users@
        &&& post.articles@ == self.articles@
        &&& post.tags@ == self.tags@
        &&& post.article_tags@ == self.article_tags@
        &&& post.favorites@ == self.favorites@
        &&& post.followings@ == self.followings@
        &&& post.next_article_id == self.next_article_id
    }
}

impl Store {
    /// Where comment `comment_id` of article `aid` is, if anywhere.
    fn find_comment(&self, comment_id: i32, aid: i32) -> (r: Option<usize>)
        ensures
            r matches Some(k) ==> k < self.comments@.len() && self.comments@[k as int].id == comment_id
                && self.comments@[k as int].article_id == aid,
            r is None ==> forall|j: int|
                0 <= j < self.comments@.len() ==> !((#[trigger] self.comments@[j]).id == comment_id
                    && self.comments@[j].article_id == aid),
    {
        let mut k: usize = 0;
        while k < self.comments.len()
            invariant
                k <= self.comments@.len(),
                forall|j: int|
                    0 <= j < k ==> !((#[trigger] self.comments@[j]).id == comment_id
                        && self.comments@[j].article_id == aid),
            decreases self.comments@.len() - k,
        {
            if self.comments[k].id == comment_id && self.comments[k].article_id == aid {
                return Some(k);
            }
            k = k + 1;
        }
        None
    }
}

/// The comments on the article with this slug, newest first, each with its
/// author's profile as `user` sees it. Fails with `NotFound` for an unknown slug.
pub fn for_article(store: &Store, user: Option<i32>, slug: &String) -> (r: DbResult<CommentList>)
    requires
        store.wf(),
    ensures
        r is Ok <==> store.slug_taken(slug@),
        r matches Ok(list) ==> store.is_comment_list(list, slug@, user),
        r matches Err(e) ==> e is NotFound,
{
    let q = get_comments(user, slug.clone());
    let i = match store.find_slug(&q.slug) {
        Some(i) => i,
        None => {
            return Err(Error::NotFound);
        },
    };
    let aid = store.articles[i].id;
    let ghost rows = store.comments@;
    let mut out: Vec<Comment> = Vec::new();
    let mut k: usize = store.comments.len();
    assert(rows.subrange(k as int, rows.len() as int) =~= seq![]);
    while k > 0
        invariant
            store.wf(),
            rows == store.comments@,
            k <= rows.len(),
            out@.len() == comments_newest(rows.subrange(k as int, rows.len() as int), aid).len(),
            out@.len() <= rows.len() - k,
            forall|j: int|
                0 <= j < out@.len() ==> store.shows_comment(
                    #[trigger] out@[j],
                    comments_newest(rows.subrange(k as int, rows.len() as int), aid)[j],
                    user,
                ),
        decreases k,
    {
        let ghost tail = rows.subrange(k as int, rows.len() as int);
        let ghost ext = rows.subrange(k - 1, rows.len() as int);
        assert(ext.subrange(1, ext.len() as int) =~= tail);
        assert(ext[0] == rows[k - 1]);
        let q = &store.comments[k - 1];
        if q.article_id == aid {
            let profile = store.profile_for(q.user_id, user);
            out.push(q.copy().to_comment(profile));
        }
        k = k - 1;
    }
    assert(rows.subrange(0, rows.len() as int) =~= rows);
    proof {
        assert(store.article_rows()[i as int].slug@ == slug@);
    }
    let n = out.len();
    Ok(CommentList { comments: out, comments_count: n as i64 })
}

/// User `user` comments on the article with this slug at time `now` (or the
/// store's clock, if later), the body sanitized. Returns the comment with its
/// author's own profile. Fails with `NotFound` for an unknown slug or user, and
/// with `InternalServerError` when the id space is full, leaving the store
/// unchanged.
pub fn create(store: &mut Store, user: i32, slug: &String, comment: &NewCommentData, now: i64) -> (r: DbResult<Comment>)
    requires
        old(store).wf(),
    ensures
        final(store).wf(),
        old(store).comment_created(*final(store), user, slug@, *comment, now, r),
{
    let i = match store.find_slug(slug) {
        Some(i) => i,
        None => {
            return Err(Error::NotFound);
        },
    };
    if user < 1 || user as usize > store.users.len() {
        return Err(Error::NotFound);
    }
    if store.next_comment_id == i32::MAX {
        return Err(Error::InternalServerError(String::from_str("comments"), String::from_str("no room for another comment")));
    }
    let created = if now > store.clock {
        now
    } else {
        store.clock
    };
    let aid = store.articles[i].id;
    let q = CommentQuery {
        id: store.next_comment_id,
        body: clean(comment.body.as_str()),
        user_id: user,
        article_id: aid,
        created_at: created,
        updated_at: created,
    };
    let ghost gq = q;
    let ghost olds = *store;
    let shown = q.copy();
    store.comments.push(q);
    store.next_comment_id = store.next_comment_id + 1;
    store.clock = created;
    proof {
        assert(store.comments@[store.comments@.len() - 1] == gq);
        assert(store.has_article_id(aid)) by {
            assert(store.articles@[i as int].id == aid);
        }
        assert forall|x: int, y: int| 0 <= x < y < store.comments@.len() implies {
            &&& (#[trigger] store.comments@[x]).id < (#[trigger] store.comments@[y]).id
            &&& store.comments@[x].created_at <= store.comments@[y].created_at
        } by {
            if y == olds.comments@.len() {
                assert(store.comments@[x] == olds.comments@[x]);
            }
        }
        assert forall|c: int| 0 <= c < store.comments@.len() implies {
            let cm = #[trigger] store.comments@[c];
            &&& 0 < cm.id < store.next_comment_id
            &&& cm.created_at <= store.clock
            &&& store.valid_user(cm.user_id)
            &&& store.has_article_id(cm.article_id)
        } by {
            if c < olds.comments@.len() {
                assert(store.comments@[c] == olds.comments@[c]);
            }
        }
        assert(olds.article_rows()[i as int].slug@ == slug@);
    }
    let profile = store.profile_for(user, Some(user));
    Ok(shown.to_comment(profile))
}

/// User `user` deletes comment `comment_id` of the article with this slug,
/// which only the comment's author may do. Returns the deleted comment with
/// its author's own profile. Fails with `NotFound` when the article or the
/// comment on it does not exist, and with `Forbidden` when it is someone
/// else's; a failure leaves the store, and the comment, unchanged.
pub fn delete(store: &mut Store, user: i32, slug: &String, comment_id: i32) -> (r: DbResult<Comment>)
    requires
        old(store).wf(),
    ensures
        final(store).wf(),
        r is Err ==> *final(store) == *old(store),
        r matches Err(e) ==> (e is NotFound <==> !old(store).has_comment(slug@, comment_id)),
        r matches Err(e) ==> (e is Forbidden <==> old(store).has_comment(slug@, comment_id)
            && !old(store).has_comment_by(slug@, comment_id, user)),
        r is Ok <==> old(store).has_comment_by(slug@, comment_id, user),
        r matches Ok(c) ==> exists|k: int|
            0 <= k < old(store).comment_rows().len() && (#[trigger] old(store).comment_rows()[k]).id
                == comment_id && final(store).comment_rows() == old(store).comment_rows().remove(k)
                && old(store).shows_comment(c, old(store).comment_rows()[k], Some(user)),
        r is Ok ==> old(store).same_except_comments(*final(store)),
{
    let i = match store.find_slug(slug) {
        Some(i) => i,
        None => {
            return Err(Error::NotFound);
        },
    };
    let aid = store.articles[i].id;
    proof {
        assert forall|j: int| 0 <= j < store.articles@.len() && (#[trigger] store.articles@[j]).slug@ == slug@ implies j == i by {
            if j < i { assert(store.articles@[j].slug@ != store.articles@[i as int].slug@); }
            else if j > i { assert(store.articles@[i as int].slug@ != store.articles@[j].slug@); }
        }
    }
    let k = match store.find_comment(comment_id, aid) {
        Some(k) => k,
        None => {
            return Err(Error::NotFound);
        },
    };
    proof {
        assert forall|j: int| 0 <= j < store.comments@.len() && (#[trigger] store.comments@[j]).id == comment_id implies j == k by {
            if j < k { assert(store.comments@[j].id < store.comments@[k as int].id); }
            else if j > k { assert(store.comments@[k as int].id < store.comments@[j].id); }
        }
        assert(store.article_rows()[i as int].slug@ == slug@);
        assert(store.comment_rows()[k as int].id == comment_id);
    }
    if store.comments[k].user_id != user {
        return Err(Error::Forbidden);
    }
    let ghost olds = *store;
    let removed = store.comments.remove(k);
    proof {
        assert forall|x: int, y: int| 0 <= x < y < store.comments@.len() implies {
            &&& (#[trigger] store.comments@[x]).id < (#[trigger] store.comments@[y]).id
            &&& store.comments@[x].created_at <= store.comments@[y].created_at
        } by {
            let xx = if x < k { x } else { x + 1 };
            let yy = if y < k { y } else { y + 1 };
            assert(store.comments@[x] == olds.comments@[xx]);
            assert(store.comments@[y] == olds.comments@[yy]);
        }
        assert forall|c: int| 0 <= c < store.comments@.len() implies {
            let cm = #[trigger] store.comments@[c];
            &&& 0 < cm.id < store.next_comment_id
            &&& cm.created_at <= store.clock
            &&& store.valid_user(cm.user_id)
            &&& store.has_article_id(cm.article_id)
        } by {
            let cc = if c < k { c } else { c + 1 };
            assert(store.comments@[c] == olds.comments@[cc]);
            lemma_has_article_id_same(olds, *store, olds.comments@[cc].article_id);
        }
        assert forall|q: int| 0 <= q < store.article_tags@.len() implies store.has_article_id((#[trigger] store.article_tags@[q]).0) by {
            lemma_has_article_id_same(olds, *store, olds.article_tags@[q].0);
        }
        assert forall|q: int| 0 <= q < store.favorites@.len() implies store.has_article_id((#[trigger] store.favorites@[q]).1) by {
            lemma_has_article_id_same(olds, *store, olds.favorites@[q].1);
        }
    }
    let profile = store.profile_for(user, Some(user));
    Ok(removed.to_comment(profile))
}

proof fn lemma_comments_newest_from(rows: Seq<CommentQuery>, aid: i32, k: int)
    requires
        0 <= k < comments_newest(rows, aid).len(),
    ensures
        exists|i: int| 0 <= i < rows.len() && rows[i] == comments_newest(rows, aid)[k],
    decreases rows.len(),
{
    let tail = rows.subrange(1, rows.len() as int);
    let rest = comments_newest(tail, aid);
    if k < rest.len() {
        lemma_comments_newest_from(tail, aid, k);
        let i = choose|i: int| 0 <= i < tail.len() && tail[i] == rest[k];
        assert(rows[i + 1] == tail[i]);
    } else {
        assert(rows[0] == comments_newest(rows, aid)[k]);
    }
}

proof fn lemma_comments_newest_ordered(rows: Seq<CommentQuery>, aid: i32)
    requires
        comments_ordered(rows),
    ensures
        forall|p: int, q: int|
            0 <= p < q < comments_newest(rows, aid).len() ==> (#[trigger] comments_newest(rows, aid)[p]).id
                > (#[trigger] comments_newest(rows, aid)[q]).id && comments_newest(rows, aid)[p].created_at
                >= comments_newest(rows, aid)[q].created_at,
    decreases rows.len(),
{
    if rows.len() > 0 {
        let tail = rows.subrange(1, rows.len() as int);
        assert(comments_ordered(tail)) by {
            assert forall|i: int, j: int| 0 <= i < j < tail.len() implies {
                &&& (#[trigger] tail[i]).id < (#[trigger] tail[j]).id
                &&& tail[i].created_at <= tail[j].created_at
            } by {
                assert(tail[i] == rows[i + 1]);
                assert(tail[j] == rows[j + 1]);
            }
        }
        lemma_comments_newest_ordered(tail, aid);
        let rest = comments_newest(tail, aid);
        let cur = comments_newest(rows, aid);
        assert forall|p: int, q: int| 0 <= p < q < cur.len() implies (#[trigger] cur[p]).id > (#[trigger] cur[q]).id
            && cur[p].created_at >= cur[q].created_at by {
            if q == rest.len() {
                assert(cur[p] == rest[p]);
                lemma_comments_newest_from(tail, aid, p);
                let i = choose|i: int| 0 <= i < tail.len() && tail[i] == rest[p];
                assert(tail[i] == rows[i + 1]);
                assert(cur[q] == rows[0]);
            } else {
                assert(cur[p] == rest[p]);
                assert(cur[q] == rest[q]);
            }
        }
    }
}

/// Comment lists run newest first: by creation time, ties broken by the higher id.
pub proof fn comments_are_newest_first(s: Store, aid: i32, p: int, q: int)
    requires
        s.wf(),
        0 <= p < q < comments_newest(s.comment_rows(), aid).len(),
    ensures
        comments_newest(s.comment_rows(), aid)[p].created_at >= comments_newest(s.comment_rows(), aid)[q].created_at,
        comments_newest(s.comment_rows(), aid)[p].id > comments_newest(s.comment_rows(), aid)[q].id,
{
    lemma_comments_newest_ordered(s.comment_rows(), aid);
}

} // verus!
