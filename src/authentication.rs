use crate::errors::Error;
use vstd::prelude::*;
use vstd::string::{StrSliceExecFns, StringExecFns};

verus! {

/// The claims a bearer token carries: the user's id and name, and its expiry.
#[derive(Debug)]
pub struct AuthData {
    pub id: i32,
    pub username: String,
    pub exp: i32,
}

/// What a request's `Authorization` header establishes.
#[derive(Debug)]
pub enum Identity {
    /// No header.
    Anonymous,
    /// A header without the token scheme, or with a token that does not verify.
    Rejected,
    /// A header with a token that verifies.
    Authenticated(AuthData),
}

/// Whether `h` starts with the scheme word `Token` in any letter case,
/// followed by a space.
pub open spec fn has_token_scheme(h: Seq<char>) -> bool {
    &&& h.len() >= 6
    &&& (h[0] == 't' || h[0] == 'T')
    &&& (h[1] == 'o' || h[1] == 'O')
    &&& (h[2] == 'k' || h[2] == 'K')
    &&& (h[3] == 'e' || h[3] == 'E')
    &&& (h[4] == 'n' || h[4] == 'N')
    &&& h[5] == ' '
}

/// The token of an `Authorization` header: what follows the scheme, when the
/// header has it.
pub fn bearer_token(header: &str) -> (r: Option<String>)
    ensures
        r is Some <==> has_token_scheme(header@),
        r matches Some(t) ==> t@ == header@.subrange(6, header@.len() as int),
{
    let n = header.unicode_len();
    if n < 6 {
        return None;
    }
    let c0 = header.get_char(0);
    let c1 = header.get_char(1);
    let c2 = header.get_char(2);
    let c3 = header.get_char(3);
    let c4 = header.get_char(4);
    let c5 = header.get_char(5);
    if (c0 == 't' || c0 == 'T') && (c1 == 'o' || c1 == 'O') && (c2 == 'k' || c2 == 'K') && (c3
        == 'e' || c3 == 'E') && (c4 == 'n' || c4 == 'N') && c5 == ' ' {
        Some(String::from_str(header.substring_char(6, n)))
    } else {
        None
    }
}

/// The identity a request carries, from its `Authorization` header (if any)
/// and from what verifying the header's token gave (`None` when it did not
/// verify or was never tried).
pub fn identify(header: Option<&str>, verified: Option<AuthData>) -> (r: Identity)
    ensures
        header is None ==> r is Anonymous,
        header matches Some(h) && !has_token_scheme(h@) ==> r is Rejected,
        header matches Some(h) && has_token_scheme(h@) ==> match verified {
            Some(d) => r == Identity::Authenticated(d),
            None => r is Rejected,
        },
{
    match header {
        None => Identity::Anonymous,
        Some(h) => match bearer_token(h) {
            None => Identity::Rejected,
            Some(_) => match verified {
                Some(d) => Identity::Authenticated(d),
                None => Identity::Rejected,
            },
        },
    }
}

impl Identity {
    /// The caller, where identity is required: `Unauthorized` when there was
    /// no header and `Forbidden` when it was rejected.
    pub fn required(self) -> (r: Result<AuthData, Error>)
        ensures
            self is Anonymous ==> r matches Err(Error::Unauthorized),
            self is Rejected ==> r matches Err(Error::Forbidden),
            self matches Identity::Authenticated(d) ==> r == Ok::<AuthData, Error>(d),
    {
        match self {
            Identity::Anonymous => Err(Error::Unauthorized),
            Identity::Rejected => Err(Error::Forbidden),
            Identity::Authenticated(d) => Ok(d),
        }
    }

    /// The caller's id, where identity is optional: none unless authenticated.
    pub fn optional(&self) -> (r: Option<i32>)
        ensures
            self matches Identity::Authenticated(d) ==> r == Some(d.id),
            !(self is Authenticated) ==> r is None,
    {
        match self {
            Identity::Authenticated(d) => Some(d.id),
            _ => None,
        }
    }
}

} // verus!
