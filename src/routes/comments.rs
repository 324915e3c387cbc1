use crate::authentication::AuthData;
use crate::db;
use crate::db::store::Store;
use crate::errors::{DbResult, Error, FieldError};
use crate::models::comment::{Comment, NewCommentData};
use crate::routes::articles::{error_fields, push_empty};
use vstd::prelude::*;

verus! {

/// The `comment` envelope a request body carries.
pub struct CommentWrapper {
    pub comment: NewCommentData,
}

/// Adds the caller's comment to the article with this slug at `now`, after
/// checking that the body is not empty. Fails with `ValidationFailed`, naming
/// the body, before touching the store; otherwise behaves as
/// `db::comments::create`.
pub fn new_comment(store: &mut Store, auth: &AuthData, slug: &String, comment: &CommentWrapper, now: i64) -> (r: DbResult<Comment>)
    requires
        old(store).wf(),
    ensures
        final(store).wf(),
        comment.comment.body@.len() == 0 <==> r matches Err(Error::ValidationFailed(..)),
        r matches Err(Error::ValidationFailed(errs)) ==> *final(store) == *old(store) && error_fields(errs@) == seq!["body"@],
        comment.comment.body@.len() > 0 ==> old(store).comment_created(
            *final(store),
            auth.id,
            slug@,
            comment.comment,
            now,
            r,
        ),
{
    if comment.comment.body.as_str().is_empty() {
        let mut errors: Vec<FieldError> = Vec::new();
        assert(error_fields(errors@) =~= seq![]);
        push_empty(&mut errors, true, "body");
        assert(error_fields(errors@) =~= seq!["body"@]);
        return Err(Error::ValidationFailed(errors));
    }
    db::comments::create(store, auth.id, slug, &comment.comment, now)
}

} // verus!
