use vstd::prelude::*;
use vstd::string::StringExecFns;

verus! {

/// One rejected input field and why.
#[derive(Debug)]
pub struct FieldError {
    pub field: String,
    pub message: String,
}

/// What an operation of the library can fail with.
#[derive(Debug)]
pub enum Error {
    /// A referenced slug, username, comment or edge does not exist.
    NotFound,
    /// A uniqueness rule would be broken: the table and the column.
    Conflict(String, String),
    /// Field-level input errors.
    ValidationFailed(Vec<FieldError>),
    /// A failure not attributable to the caller's input: a category and a detail.
    InternalServerError(String, String),
    /// Login credentials do not match.
    AuthError,
    /// Authenticated, but not permitted.
    Forbidden,
    /// Identity required but absent.
    Unauthorized,
}

pub type DbResult<T> = Result<T, Error>;

/// The HTTP-equivalent status code of each kind of error.
pub open spec fn status_of(e: Error) -> u16 {
    match e {
        Error::NotFound => 404,
        Error::Conflict(..) => 422,
        Error::ValidationFailed(..) => 422,
        Error::InternalServerError(..) => 500,
        Error::AuthError => 422,
        Error::Forbidden => 403,
        Error::Unauthorized => 401,
    }
}

impl Error {
    pub fn status(&self) -> (r: u16)
        ensures
            r == status_of(*self),
    {
        match self {
            Error::NotFound => 404,
            Error::Conflict(..) => 422,
            Error::ValidationFailed(..) => 422,
            Error::InternalServerError(..) => 500,
            Error::AuthError => 422,
            Error::Forbidden => 403,
            Error::Unauthorized => 401,
        }
    }
}

/// The one-entry payload `key: value`.
pub open spec fn single_entry(r: Seq<FieldError>, key: Seq<char>, value: Seq<char>) -> bool {
    &&& r.len() == 1
    &&& r[0].field@ == key
    &&& r[0].message@ == value
}

fn entry(key: &str, value: &str) -> (r: Vec<FieldError>)
    ensures
        single_entry(r@, key@, value@),
{
    let mut r: Vec<FieldError> = Vec::new();
    r.push(FieldError { field: String::from_str(key), message: String::from_str(value) });
    r
}

/// The payload and status code an error is answered with. Internal errors
/// carry their category only, never their detail.
pub fn dispatch_error(error: &Error) -> (r: (Vec<FieldError>, u16))
    ensures
        r.1 == status_of(*error),
        error is NotFound ==> single_entry(r.0@, "not found"@, "requested resource not found"@),
        error matches Error::Conflict(t, c) ==> single_entry(r.0@, t@ + " "@ + c@, "already exists"@),
        error matches Error::ValidationFailed(v) ==> r.0@.len() == v@.len() && forall|i: int|
            0 <= i < v@.len() ==> (#[trigger] r.0@[i]).field == v@[i].field && r.0@[i].message
                == v@[i].message,
        error matches Error::InternalServerError(k, _) ==> single_entry(r.0@, k@, "internal error"@),
        error is AuthError ==> single_entry(r.0@, "email or password"@, "is invalid"@),
        error is Forbidden ==> single_entry(r.0@, "forbidden"@, "you are not allowed to access this resource"@),
        error is Unauthorized ==> single_entry(
            r.0@,
            "unauthorized"@,
            "you need to be logged in to access this resource"@,
        ),
{
    let payload = match error {
        Error::NotFound => entry("not found", "requested resource not found"),
        Error::Conflict(table, column) => {
            let key = table.clone().concat(" ").concat(column.as_str());
            let mut r: Vec<FieldError> = Vec::new();
            r.push(FieldError { field: key, message: String::from_str("already exists") });
            r
        },
        Error::ValidationFailed(fields) => {
            let mut r: Vec<FieldError> = Vec::new();
            let mut i: usize = 0;
            while i < fields.len()
                invariant
                    i <= fields@.len(),
                    r@.len() == i,
                    forall|j: int|
                        0 <= j < i ==> (#[trigger] r@[j]).field == fields@[j].field && r@[j].message
                            == fields@[j].message,
                decreases fields@.len() - i,
            {
                r.push(FieldError { field: fields[i].field.clone(), message: fields[i].message.clone() });
                i = i + 1;
            }
            r
        },
        Error::InternalServerError(category, _) => {
            let mut r: Vec<FieldError> = Vec::new();
            r.push(FieldError { field: category.clone(), message: String::from_str("internal error") });
            r
        },
        Error::AuthError => entry("email or password", "is invalid"),
        Error::Forbidden => entry("forbidden", "you are not allowed to access this resource"),
        Error::Unauthorized => entry("unauthorized", "you need to be logged in to access this resource"),
    };
    (payload, error.status())
}

} // verus!
