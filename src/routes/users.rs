use crate::authentication::AuthData;
use crate::db;
use crate::db::store::Store;
use crate::db::users::scrypt_accepts;
use crate::errors::{DbResult, Error, FieldError};
use crate::models::user::{LoginData, NewUserData, User, UserUpdateData};
use crate::routes::articles::{empty_error, error_fields, given_empty, push_empty};
use vstd::prelude::*;
use vstd::string::StringExecFns;

verus! {

/// The `user` envelope a request body carries.
pub struct UserWrapper<U> {
    pub user: U,
}

#[verifier::external_type_specification]
#[verifier::external_body]
pub struct ExRegex(regex::Regex);

/// What an email address must look like: a local part, `@`, a domain and a
/// top-level domain of two to five letters.
pub const EMAIL_PATTERN: &'static str = "^([a-zA-Z0-9_\\-\\.]+)@([a-zA-Z0-9_\\-\\.]+)\\.([a-zA-Z]{2,5})$";

/// Whether `text` matches `EMAIL_PATTERN`.
pub uninterp spec fn email_ok(text: Seq<char>) -> bool;

/// `EMAIL_PATTERN` compiled. Only `email_regex` makes one.
pub struct EmailPattern {
    re: regex::Regex,
}

/// Relies on `regex::Regex::new`: the compiled pattern, or nothing when its
/// syntax is invalid; `EMAIL_PATTERN` is valid syntax.
#[verifier::external_body]
fn compile_pattern(pattern: &str) -> (r: Option<regex::Regex>)
    ensures
        pattern@ == EMAIL_PATTERN@ ==> r is Some,
{
    regex::Regex::new(pattern).ok()
}

/// Relies on `regex::Regex::is_match`: whether the compiled `EMAIL_PATTERN`
/// matches `text`; the answer depends on `text` alone.
#[verifier::external_body]
fn pattern_matches(p: &EmailPattern, text: &str) -> (r: bool)
    ensures
        r == email_ok(text@),
{
    p.re.is_match(text)
}

/// The compiled email pattern.
pub fn email_regex() -> (r: DbResult<EmailPattern>)
    ensures
        r is Ok,
{
    match compile_pattern(EMAIL_PATTERN) {
        Some(re) => Ok(EmailPattern { re }),
        None => Err(Error::InternalServerError(String::from_str("email regex"), String::from_str("invalid pattern"))),
    }
}

/// Whether registration input has an empty field or a malformed email.
pub open spec fn new_user_invalid(u: NewUserData) -> bool {
    u.username@.len() == 0 || u.email@.len() == 0 || !email_ok(u.email@) || u.password@.len() == 0
}

/// Whether a given email (if any) is well formed.
pub open spec fn update_email_ok(email: Option<String>) -> bool {
    match email {
        Some(e) => email_ok(e@),
        None => true,
    }
}

/// Whether an account update gives an empty field or a malformed email.
pub open spec fn update_user_invalid(u: UserUpdateData) -> bool {
    ||| given_empty(u.username)
    ||| given_empty(u.password)
    ||| (u.email matches Some(e) && (e@.len() == 0 || !email_ok(e@)))
}

/// The one-entry error list naming the email, when it is empty or malformed.
pub open spec fn email_error(email: Seq<char>, well_formed: bool) -> Seq<Seq<char>> {
    if email.len() == 0 || !well_formed {
        seq!["email"@]
    } else {
        seq![]
    }
}

fn push_email(errors: &mut Vec<FieldError>, email: &String, well_formed: bool)
    ensures
        error_fields(final(errors)@) == error_fields(old(errors)@) + email_error(email@, well_formed),
{
    let ghost before = errors@;
    if email.as_str().is_empty() {
        errors.push(FieldError { field: String::from_str("email"), message: String::from_str("is empty") });
        assert(error_fields(errors@) =~= error_fields(before) + seq!["email"@]);
    } else if !well_formed {
        errors.push(FieldError { field: String::from_str("email"), message: String::from_str("is invalid") });
        assert(error_fields(errors@) =~= error_fields(before) + seq!["email"@]);
    } else {
        assert(error_fields(errors@) =~= error_fields(before) + seq![]);
    }
}

/// The invalid fields of a registration, given whether the email matched the
/// email pattern: username, email and password, in that order.
pub fn new_user_errors(user: &NewUserData, email_well_formed: bool) -> (r: Vec<FieldError>)
    ensures
        error_fields(r@) == empty_error(user.username@.len() == 0, "username"@) + email_error(
            user.email@,
            email_well_formed,
        ) + empty_error(user.password@.len() == 0, "password"@),
{
    let mut errors: Vec<FieldError> = Vec::new();
    assert(error_fields(errors@) =~= seq![]);
    push_empty(&mut errors, user.username.as_str().is_empty(), "username");
    push_email(&mut errors, &user.email, email_well_formed);
    push_empty(&mut errors, user.password.as_str().is_empty(), "password");
    assert(seq![] + empty_error(user.username@.len() == 0, "username"@) =~= empty_error(user.username@.len() == 0, "username"@));
    errors
}

/// The email error of an update: none when no email is given.
pub open spec fn update_email_error(email: Option<String>, well_formed: bool) -> Seq<Seq<char>> {
    match email {
        Some(e) => email_error(e@, well_formed),
        None => seq![],
    }
}

/// The invalid fields of an account update, given whether the email (if any)
/// matched the email pattern: username, email and password, in that order.
pub fn update_user_errors(user: &UserUpdateData, email_well_formed: bool) -> (r: Vec<FieldError>)
    ensures
        error_fields(r@) == empty_error(given_empty(user.username), "username"@) + update_email_error(
            user.email,
            email_well_formed,
        ) + empty_error(given_empty(user.password), "password"@),
{
    let mut errors: Vec<FieldError> = Vec::new();
    assert(error_fields(errors@) =~= seq![]);
    let username_empty = match &user.username {
        Some(s) => s.as_str().is_empty(),
        None => false,
    };
    push_empty(&mut errors, username_empty, "username");
    match &user.email {
        Some(e) => push_email(&mut errors, e, email_well_formed),
        None => {
            assert(error_fields(errors@) =~= error_fields(errors@) + seq![]);
        },
    }
    let password_empty = match &user.password {
        Some(s) => s.as_str().is_empty(),
        None => false,
    };
    push_empty(&mut errors, password_empty, "password");
    assert(seq![] + empty_error(given_empty(user.username), "username"@) =~= empty_error(given_empty(user.username), "username"@));
    errors
}

/// Registers an account after checking that no field is empty and that the
/// email is well formed. Fails with `ValidationFailed`, naming the invalid
/// fields, before touching the store; otherwise behaves as `db::users::create`.
pub fn register(store: &mut Store, data: &UserWrapper<NewUserData>) -> (r: DbResult<User>)
    requires
        old(store).wf(),
    ensures
        final(store).wf(),
        r matches Err(Error::ValidationFailed(..)) <==> new_user_invalid(data.user),
        r matches Err(Error::ValidationFailed(errs)) ==> *final(store) == *old(store) && error_fields(errs@)
            == empty_error(data.user.username@.len() == 0, "username"@) + email_error(
            data.user.email@,
            email_ok(data.user.email@),
        ) + empty_error(data.user.password@.len() == 0, "password"@),
        !new_user_invalid(data.user) ==> old(store).user_created(
            *final(store),
            data.user.username,
            data.user.email,
            data.user.password,
            r,
        ),
{
    let re = match email_regex() {
        Ok(re) => re,
        Err(e) => {
            return Err(e);
        },
    };
    let well_formed = pattern_matches(&re, data.user.email.as_str());
    let errors = new_user_errors(&data.user, well_formed);
    if errors.len() > 0 {
        return Err(Error::ValidationFailed(errors));
    }
    assert(error_fields(errors@).len() == 0);
    db::users::create(store, &data.user.username, &data.user.email, &data.user.password)
}

/// Logs in with email and password; behaves as `db::users::authenticate`.
pub fn login(store: &Store, data: &UserWrapper<LoginData>) -> (r: DbResult<User>)
    requires
        store.wf(),
    ensures
        r is Ok <==> exists|i: int|
            0 <= i < store.user_rows().len() && (#[trigger] store.user_rows()[i]).email@
                == data.user.email@ && scrypt_accepts(data.user.password@, store.user_rows()[i].hash@),
        r matches Err(e) ==> e is AuthError,
{
    db::users::authenticate(store, &data.user.email, &data.user.password)
}

/// Updates the caller's account after checking that no given field is empty
/// and that a given email is well formed. Fails with `ValidationFailed`,
/// naming the invalid fields, before touching the store; otherwise behaves as
/// `db::users::update`.
pub fn update_current_user(store: &mut Store, auth: &AuthData, data: &UserWrapper<UserUpdateData>) -> (r: DbResult<User>)
    requires
        old(store).wf(),
    ensures
        final(store).wf(),
        r matches Err(Error::ValidationFailed(..)) <==> update_user_invalid(data.user),
        r matches Err(Error::ValidationFailed(errs)) ==> *final(store) == *old(store) && error_fields(errs@)
            == empty_error(given_empty(data.user.username), "username"@) + update_email_error(
            data.user.email,
            update_email_ok(data.user.email),
        ) + empty_error(given_empty(data.user.password), "password"@),
        !update_user_invalid(data.user) ==> old(store).user_updated(*final(store), auth.id, data.user, r),
{
    let re = match email_regex() {
        Ok(re) => re,
        Err(e) => {
            return Err(e);
        },
    };
    let well_formed = match &data.user.email {
        Some(e) => pattern_matches(&re, e.as_str()),
        None => true,
    };
    assert(well_formed == update_email_ok(data.user.email));
    let errors = update_user_errors(&data.user, well_formed);
    assert(error_fields(errors@).len() == errors@.len());
    assert(update_user_invalid(data.user) <==> error_fields(errors@).len() > 0);
    if errors.len() > 0 {
        return Err(Error::ValidationFailed(errors));
    }
    db::users::update(store, auth.id, &data.user)
}

} // verus!
