use crate::authentication::AuthData;
use crate::db;
use crate::db::store::Store;
use crate::errors::{DbResult, Error, FieldError};
use crate::models::article::{Article, NewArticleData, UpdateArticleData};
use vstd::prelude::*;
use vstd::string::StringExecFns;

verus! {

/// The `article` envelope a request body carries.
pub struct ArticleWrapper<T> {
    pub article: T,
}

/// The field names of a list of field errors, in order.
pub open spec fn error_fields(errors: Seq<FieldError>) -> Seq<Seq<char>> {
    errors.map_values(|e: FieldError| e.field@)
}

/// The one-entry error list naming `field` as empty, when `empty`.
pub open spec fn empty_error(empty: bool, field: Seq<char>) -> Seq<Seq<char>> {
    if empty {
        seq![field]
    } else {
        seq![]
    }
}

pub(crate) fn push_empty(errors: &mut Vec<FieldError>, empty: bool, field: &str)
    ensures
        error_fields(final(errors)@) == error_fields(old(errors)@) + empty_error(empty, field@),
{
    if empty {
        let ghost before = errors@;
        errors.push(FieldError { field: String::from_str(field), message: String::from_str("is empty") });
        assert(error_fields(errors@) =~= error_fields(before) + seq![field@]);
    } else {
        assert(error_fields(errors@) =~= error_fields(errors@) + seq![]);
    }
}

/// Whether a new article has an empty title, description or body.
pub open spec fn new_article_invalid(a: NewArticleData) -> bool {
    a.body@.len() == 0 || a.description@.len() == 0 || a.title@.len() == 0
}

/// Whether an article update gives an empty title, description or body.
pub open spec fn update_article_invalid(a: UpdateArticleData) -> bool {
    given_empty(a.body) || given_empty(a.description) || given_empty(a.title)
}

/// Whether an optional field is present but empty.
pub open spec fn given_empty(f: Option<String>) -> bool {
    f matches Some(s) && s@.len() == 0
}

fn is_given_empty(f: &Option<String>) -> (r: bool)
    ensures
        r == given_empty(*f),
{
    match f {
        Some(s) => s.as_str().is_empty(),
        None => false,
    }
}

/// The fields of a new article that are empty: body, description and title, in that order.
pub fn new_article_errors(article: &NewArticleData) -> (r: Vec<FieldError>)
    ensures
        error_fields(r@) == empty_error(article.body@.len() == 0, "body"@) + empty_error(
            article.description@.len() == 0,
            "description"@,
        ) + empty_error(article.title@.len() == 0, "title"@),
{
    let mut errors: Vec<FieldError> = Vec::new();
    assert(error_fields(errors@) =~= seq![]);
    push_empty(&mut errors, article.body.as_str().is_empty(), "body");
    push_empty(&mut errors, article.description.as_str().is_empty(), "description");
    push_empty(&mut errors, article.title.as_str().is_empty(), "title");
    assert(seq![] + empty_error(article.body@.len() == 0, "body"@) =~= empty_error(article.body@.len() == 0, "body"@));
    errors
}

/// The fields of an article update that are given but empty: body,
/// description and title, in that order.
pub fn update_article_errors(article: &UpdateArticleData) -> (r: Vec<FieldError>)
    ensures
        error_fields(r@) == empty_error(given_empty(article.body), "body"@) + empty_error(
            given_empty(article.description),
            "description"@,
        ) + empty_error(given_empty(article.title), "title"@),
{
    let mut errors: Vec<FieldError> = Vec::new();
    assert(error_fields(errors@) =~= seq![]);
    push_empty(&mut errors, is_given_empty(&article.body), "body");
    push_empty(&mut errors, is_given_empty(&article.description), "description");
    push_empty(&mut errors, is_given_empty(&article.title), "title");
    assert(seq![] + empty_error(given_empty(article.body), "body"@) =~= empty_error(given_empty(article.body), "body"@));
    errors
}

/// Creates an article for the authenticated caller at `now`, after checking
/// that no field is empty. Fails with `ValidationFailed`, naming the empty
/// fields, before touching the store; otherwise behaves as `db::articles::create`.
pub fn new_article(store: &mut Store, auth: &AuthData, data: &ArticleWrapper<NewArticleData>, now: i64) -> (r: DbResult<Article>)
    requires
        old(store).wf(),
    ensures
        final(store).wf(),
        r matches Err(Error::ValidationFailed(..)) <==> new_article_invalid(data.article),
        r matches Err(Error::ValidationFailed(errs)) ==> *final(store) == *old(store) && error_fields(errs@)
            == empty_error(data.article.body@.len() == 0, "body"@) + empty_error(
            data.article.description@.len() == 0,
            "description"@,
        ) + empty_error(data.article.title@.len() == 0, "title"@),
        !new_article_invalid(data.article) ==> old(store).article_created(
            *final(store),
            data.article,
            auth.id,
            now,
            r,
        ),
{
    let errors = new_article_errors(&data.article);
    if errors.len() > 0 {
        return Err(Error::ValidationFailed(errors));
    }
    assert(error_fields(errors@).len() == 0);
    proof {
        reveal_strlit("body");
        reveal_strlit("description");
        reveal_strlit("title");
    }
    db::articles::create(store, &data.article, auth.id, now)
}

/// Updates an article for the authenticated caller at `now`, after checking
/// that no given field is empty. Fails with `ValidationFailed`, naming those
/// fields, before touching the store; otherwise behaves as `db::articles::update`.
pub fn update_article(store: &mut Store, auth: &AuthData, slug: &String, data: &ArticleWrapper<UpdateArticleData>, now: i64) -> (r: DbResult<Article>)
    requires
        old(store).wf(),
    ensures
        final(store).wf(),
        r matches Err(Error::ValidationFailed(..)) <==> update_article_invalid(data.article),
        r matches Err(Error::ValidationFailed(errs)) ==> *final(store) == *old(store) && error_fields(errs@)
            == empty_error(given_empty(data.article.body), "body"@) + empty_error(
            given_empty(data.article.description),
            "description"@,
        ) + empty_error(given_empty(data.article.title), "title"@),
        !update_article_invalid(data.article) ==> old(store).article_updated(
            *final(store),
            auth.id,
            slug@,
            data.article,
            now,
            r,
        ),
{
    let errors = update_article_errors(&data.article);
    if errors.len() > 0 {
        return Err(Error::ValidationFailed(errors));
    }
    assert(error_fields(errors@).len() == 0);
    proof {
        reveal_strlit("body");
        reveal_strlit("description");
        reveal_strlit("title");
    }
    db::articles::update(store, auth.id, slug, &data.article, now)
}

} // verus!
