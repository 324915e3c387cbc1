use vstd::prelude::*;

verus! {

/// A bare username, as handed back where only the name matters.
#[derive(Debug)]
pub struct Username(pub String);

/// A stored account.
#[derive(Debug)]
pub struct User {
    pub id: i32,
    pub username: String,
    pub email: String,
    pub bio: Option<String>,
    pub image: Option<String>,
    pub hash: String,
}

/// The account as handed to its owner, with a bearer token.
#[derive(Debug)]
pub struct AuthenticatedUser {
    pub username: String,
    pub email: String,
    pub bio: Option<String>,
    pub image: Option<String>,
    pub token: String,
    pub id: i32,
}

/// A viewer-relative projection of an account.
#[derive(Debug)]
pub struct Profile {
    pub username: String,
    pub bio: Option<String>,
    pub image: Option<String>,
    pub following: bool,
}

/// Registration input.
#[derive(Debug)]
pub struct NewUserData {
    pub username: String,
    pub email: String,
    pub password: String,
}

/// A partial account update: absent fields are left as they are.
#[derive(Debug)]
pub struct UserUpdateData {
    pub username: Option<String>,
    pub email: Option<String>,
    pub password: Option<String>,
    pub bio: Option<String>,
    pub image: Option<String>,
}

/// Login input.
#[derive(Debug)]
pub struct LoginData {
    pub email: String,
    pub password: String,
}

/// A copy of an optional text, equal to it.
pub fn copy_text(o: &Option<String>) -> (r: Option<String>)
    ensures
        r == *o,
{
    match o {
        Some(s) => Some(s.clone()),
        None => None,
    }
}

impl User {
    /// Whether `p` is this account seen with the given `following` flag.
    pub open spec fn profile_is(&self, p: Profile, following: bool) -> bool {
        &&& p.username == self.username
        &&& p.bio == self.bio
        &&& p.image == self.image
        &&& p.following == following
    }

    pub fn to_profile(self, followed: bool) -> (p: Profile)
        ensures
            self.profile_is(p, followed),
    {
        Profile { username: self.username, bio: self.bio, image: self.image, following: followed }
    }

    /// A copy of this account, equal to it field by field.
    pub fn copy(&self) -> (r: User)
        ensures
            r == *self,
    {
        User {
            id: self.id,
            username: self.username.clone(),
            email: self.email.clone(),
            bio: copy_text(&self.bio),
            image: copy_text(&self.image),
            hash: self.hash.clone(),
        }
    }

    /// The account handed to its owner together with a token issued for it.
    pub fn to_authenticated(self, token: String) -> (a: AuthenticatedUser)
        ensures
            a.id == self.id,
            a.username == self.username,
            a.email == self.email,
            a.bio == self.bio,
            a.image == self.image,
            a.token == token,
    {
        AuthenticatedUser {
            username: self.username,
            bio: self.bio,
            email: self.email,
            image: self.image,
            token,
            id: self.id,
        }
    }
}

} // verus!
