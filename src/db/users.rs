use crate::authentication::AuthData;
use crate::db::store::{find_pair, has_pair, lemma_references_kept, Store};
use crate::errors::{DbResult, Error};
use crate::models::user::{copy_text, Profile, User, UserUpdateData};
use crate::sanitize::{clean, cleaned};
use vstd::prelude::*;
use vstd::string::StringExecFns;

verus! {

#[verifier::external_type_specification]
#[verifier::external_body]
pub struct ExScryptParams(scrypt::ScryptParams);

/// Whether scrypt accepts `password` against the stored `hash`.
pub uninterp spec fn scrypt_accepts(password: Seq<char>, hash: Seq<char>) -> bool;

/// Relies on `scrypt::ScryptParams::new`: cost parameters, refused when invalid.
#[verifier::external_body]
fn scrypt_params(log_n: u8, r: u32, p: u32) -> (res: Option<scrypt::ScryptParams>) {
    scrypt::ScryptParams::new(log_n, r, p).ok()
}

/// Relies on `scrypt::scrypt_simple`: a freshly salted hash which, as its
/// documentation states, `scrypt_check` accepts for the same password.
#[verifier::external_body]
fn scrypt_hash(password: &str, params: &scrypt::ScryptParams) -> (r: Option<String>)
    ensures
        r matches Some(h) ==> scrypt_accepts(password@, h@),
{
    scrypt::scrypt_simple(password, params).ok()
}

/// Relies on `scrypt::scrypt_check`: whether the password matches the hash.
#[verifier::external_body]
fn scrypt_verify(password: &str, hash: &str) -> (r: bool)
    ensures
        r == scrypt_accepts(password@, hash@),
{
    scrypt::scrypt_check(password, hash).is_ok()
}

/// A salted, memory-hard hash of `password` that verifies against it.
pub fn make_hash(password: &String) -> (r: Result<String, Error>)
    ensures
        r matches Ok(h) ==> scrypt_accepts(password@, h@),
        r matches Err(e) ==> e is InternalServerError,
{
    match scrypt_params(10, 8, 1) {
        Some(params) => match scrypt_hash(password.as_str(), &params) {
            Some(h) => Ok(h),
            None => Err(Error::InternalServerError(String::from_str("password"), String::from_str("hashing failed"))),
        },
        None => Err(Error::InternalServerError(String::from_str("password"), String::from_str("invalid hashing parameters"))),
    }
}

impl Store {
    /// The stored accounts, in id order.
    pub open(crate) spec fn user_rows(self) -> Seq<User> {
        self.users@
    }

    pub open(crate) spec fn username_taken(self, name: Seq<char>) -> bool {
        exists|i: int| 0 <= i < self.users@.len() && (#[trigger] self.users@[i]).username@ == name
    }

    pub open(crate) spec fn email_taken(self, email: Seq<char>) -> bool {
        exists|i: int| 0 <= i < self.users@.len() && (#[trigger] self.users@[i]).email@ == email
    }

    /// Everything but the accounts is the same in `post`.
    pub open(crate) spec fn same_except_users(self, post: Store) -> bool {
        &&& post.articles@ == self.articles@
        &&& post.comments@ == self.comments@
        &&& post.tags@ == self.tags@
        &&& post.article_tags@ == self.article_tags@
        &&& post.favorites@ == self.favorites@
        &&& post.followings@ == self.followings@
        &&& post.next_article_id == self.next_article_id
        &&& post.next_comment_id == self.next_comment_id
        &&& post.clock == self.clock
    }

    /// Everything but the following edges is the same in `post`.
    pub open(crate) spec fn same_except_followings(self, post: Store) -> bool {
        &&& post.users@ == self.users@
        &&& post.articles@ == self.articles@
        &&& post.comments@ == self.comments@
        &&& post.tags@ == self.tags@
        &&& post.article_tags@ == self.article_tags@
        &&& post.favorites@ == self.favorites@
        &&& post.next_article_id == self.next_article_id
        &&& post.next_comment_id == self.next_comment_id
        &&& post.clock == self.clock
    }
}

/// Registers an account: username and email sanitized, the password stored
/// as a salted hash. Fails with `Conflict` when the sanitized username or
/// email is taken, with `InternalServerError` when the id space is full or
/// hashing fails; a failure leaves the store unchanged.
pub fn create(store: &mut Store, username: &String, email: &String, password: &String) -> (r: DbResult<User>)
    requires
        old(store).wf(),
    ensures
        final(store).wf(),
        old(store).user_created(*final(store), *username, *email, *password, r),
{
    let name = clean(username.as_str());
    let mail = clean(email.as_str());
    match store.find_username(&name) {
        Some(_) => {
            return Err(Error::Conflict(String::from_str("users"), String::from_str("username")));
        },
        None => {},
    }
    match store.find_email(&mail) {
        Some(_) => {
            return Err(Error::Conflict(String::from_str("users"), String::from_str("email")));
        },
        None => {},
    }
    if store.users.len() >= (i32::MAX - 1) as usize {
        return Err(Error::InternalServerError(String::from_str("users"), String::from_str("no room for another user")));
    }
    let hash = match make_hash(password) {
        Ok(h) => h,
        Err(e) => {
            return Err(e);
        },
    };
    let id = (store.users.len() + 1) as i32;
    let u = User { id, username: name, email: mail, bio: None, image: None, hash };
    let ghost gu = u;
    let ghost olds = *store;
    let result = u.copy();
    store.users.push(u);
    proof {
        assert(store.users@[store.users@.len() - 1] == gu);
        assert forall|i: int, j: int| 0 <= i < j < store.users@.len() implies
            (#[trigger] store.users@[i]).username@ != (#[trigger] store.users@[j]).username@
                && store.users@[i].email@ != store.users@[j].email@ by {
            if j == olds.users@.len() {
                assert(store.users@[i] == olds.users@[i]);
            }
        }
        lemma_references_kept(olds, *store);
    }
    Ok(result)
}

/// The account with this email whose hash accepts `password`. Fails with the
/// same `AuthError` whether the email is unknown or the password wrong.
pub fn authenticate(store: &Store, email: &String, password: &String) -> (r: DbResult<User>)
    requires
        store.wf(),
    ensures
        r is Ok <==> exists|i: int|
            0 <= i < store.user_rows().len() && (#[trigger] store.user_rows()[i]).email@ == email@
                && scrypt_accepts(password@, store.user_rows()[i].hash@),
        r matches Ok(u) ==> exists|i: int|
            0 <= i < store.user_rows().len() && u == #[trigger] store.user_rows()[i] && u.email@
                == email@,
        r matches Err(e) ==> e is AuthError,
{
    match store.find_email(email) {
        None => Err(Error::AuthError),
        Some(i) => {
            if scrypt_verify(password.as_str(), store.users[i].hash.as_str()) {
                Ok(store.users[i].copy())
            } else {
                proof {
                    assert forall|j: int| 0 <= j < store.user_rows().len() && (#[trigger] store.user_rows()[j]).email@ == email@
                        implies !scrypt_accepts(password@, store.user_rows()[j].hash@) by {
                        if j != i {
                            if j < i {
                                assert(store.users@[j].email@ != store.users@[i as int].email@);
                            } else {
                                assert(store.users@[i as int].email@ != store.users@[j].email@);
                            }
                        }
                    }
                }
                Err(Error::AuthError)
            }
        },
    }
}

/// The account with this username; `NotFound` when there is none.
pub fn find_by_username(store: &Store, username: &String) -> (r: DbResult<User>)
    requires
        store.wf(),
    ensures
        r is Ok <==> store.username_taken(username@),
        r matches Ok(u) ==> u.username@ == username@ && exists|i: int|
            0 <= i < store.user_rows().len() && u == #[trigger] store.user_rows()[i],
        r matches Err(e) ==> e is NotFound,
{
    match store.find_username(username) {
        Some(i) => {
            let u = store.users[i].copy();
            proof {
                assert(store.user_rows()[i as int] == u);
            }
            Ok(u)
        },
        None => Err(Error::NotFound),
    }
}

/// The account with this id; `NotFound` when there is none.
pub fn find_by_id(store: &Store, id: i32) -> (r: DbResult<User>)
    requires
        store.wf(),
    ensures
        r is Ok <==> 1 <= id <= store.user_rows().len(),
        r matches Ok(u) ==> u == store.user_rows()[id - 1] && u.id == id,
        r matches Err(e) ==> e is NotFound,
{
    if id >= 1 && id as usize <= store.users.len() {
        Ok(store.users[(id - 1) as usize].copy())
    } else {
        Err(Error::NotFound)
    }
}

/// The profile of the account with this username as `current_user` sees it:
/// `following` is false for an anonymous viewer and for oneself.
pub fn profile(store: &Store, username: &String, current_user: &Option<AuthData>) -> (r: DbResult<Profile>)
    requires
        store.wf(),
    ensures
        r is Ok <==> store.username_taken(username@),
        r matches Ok(p) ==> exists|i: int|
            0 <= i < store.user_rows().len() && (#[trigger] store.user_rows()[i]).username@
                == username@ && store.shows_profile(
                p,
                store.user_rows()[i].id,
                match current_user {
                    Some(a) => Some(a.id),
                    None => None,
                },
            ),
        r matches Err(e) ==> e is NotFound,
{
    let viewer = match current_user {
        Some(a) => Some(a.id),
        None => None,
    };
    match store.find_username(username) {
        Some(i) => {
            let uid = store.users[i].id;
            let p = store.profile_for(uid, viewer);
            proof {
                assert(store.user_rows()[i as int].username@ == username@);
            }
            Ok(p)
        },
        None => Err(Error::NotFound),
    }
}

impl Store {
    /// The outcome of `create`: what `post` and `r` are, from this store.
    pub open(crate) spec fn user_created(self, post: Store, username: String, email: String, password: String, r: DbResult<User>) -> bool {
        &&& (r is Err ==> post == self)
        &&& (self.username_taken(cleaned(username@)) || self.email_taken(cleaned(email@))
            ==> r matches Err(Error::Conflict(..)))
        &&& (r matches Err(Error::Conflict(..)) ==> self.username_taken(cleaned(username@))
            || self.email_taken(cleaned(email@)))
        &&& (!self.username_taken(cleaned(username@)) && !self.email_taken(cleaned(email@))
            ==> r is Ok || r matches Err(Error::InternalServerError(..)))
        &&& (!self.username_taken(cleaned(username@)) && !self.email_taken(cleaned(email@))
            && self.user_rows().len() >= i32::MAX - 1 ==> r matches Err(Error::InternalServerError(..)))
        &&& (r matches Err(e) ==> e is Conflict || e is InternalServerError)
        &&& (r matches Ok(u) ==> {
            &&& post.user_rows() == self.user_rows().push(u)
            &&& u.id == self.user_rows().len() + 1
            &&& u.username@ == cleaned(username@)
            &&& u.email@ == cleaned(email@)
            &&& u.bio is None
            &&& u.image is None
            &&& scrypt_accepts(password@, u.hash@)
            &&& self.same_except_users(post)
            })
    }

    /// The outcome of `update`: what `post` and `r` are, from this store.
    pub open(crate) spec fn user_updated(self, post: Store, id: i32, upd: UserUpdateData, r: DbResult<User>) -> bool {
        &&& (r is Err ==> post == self)
        &&& (r matches Err(e) ==> (e is NotFound <==> !(1 <= id <= self.user_rows().len())))
        &&& (1 <= id <= self.user_rows().len() ==> (r matches Err(Error::Conflict(..))
            <==> self.update_conflicts(id, upd)))
        &&& (1 <= id <= self.user_rows().len() && !self.update_conflicts(id, upd) && upd.password is None
            ==> r is Ok)
        &&& (r matches Err(e) ==> e is NotFound || e is Conflict || e is InternalServerError)
        &&& (r matches Ok(u) ==> 1 <= id <= self.user_rows().len() && {
            &&& post.user_rows() == self.user_rows().update(id - 1, u)
            &&& updated_user(self.user_rows()[id - 1], u, upd)
            &&& self.same_except_users(post)
            })
    }

    /// Whether an account other than `id` has this username.
    pub open(crate) spec fn username_taken_by_other(self, name: Seq<char>, id: i32) -> bool {
        exists|i: int|
            0 <= i < self.users@.len() && i != id - 1 && (#[trigger] self.users@[i]).username@ == name
    }

    /// Whether an account other than `id` has this email.
    pub open(crate) spec fn email_taken_by_other(self, email: Seq<char>, id: i32) -> bool {
        exists|i: int|
            0 <= i < self.users@.len() && i != id - 1 && (#[trigger] self.users@[i]).email@ == email
    }

    /// Whether the update would give account `id` a username or email that
    /// another account has.
    pub open(crate) spec fn update_conflicts(self, id: i32, upd: UserUpdateData) -> bool {
        ||| (upd.username matches Some(n) && self.username_taken_by_other(cleaned(n@), id))
        ||| (upd.email matches Some(e) && self.email_taken_by_other(cleaned(e@), id))
    }
}

/// Whether `b` is account `a` after `upd`: present fields sanitized and set,
/// a present password stored as a hash that accepts it.
pub open spec fn updated_user(a: User, b: User, upd: UserUpdateData) -> bool {
    &&& b.id == a.id
    &&& match upd.username {
        None => b.username == a.username,
        Some(n) => b.username@ == cleaned(n@),
    }
    &&& match upd.email {
        None => b.email == a.email,
        Some(e) => b.email@ == cleaned(e@),
    }
    &&& match upd.bio {
        None => b.bio == a.bio,
        Some(t) => b.bio matches Some(x) && x@ == cleaned(t@),
    }
    &&& match upd.image {
        None => b.image == a.image,
        Some(t) => b.image matches Some(x) && x@ == cleaned(t@),
    }
    &&& match upd.password {
        None => b.hash == a.hash,
        Some(p) => scrypt_accepts(p@, b.hash@),
    }
}

fn cleaned_text(field: &Option<String>, current: &String) -> (r: String)
    ensures
        field is None ==> r == *current,
        field matches Some(f) ==> r@ == cleaned(f@),
{
    match field {
        Some(f) => clean(f.as_str()),
        None => current.clone(),
    }
}

fn cleaned_opt(field: &Option<String>, current: &Option<String>) -> (r: Option<String>)
    ensures
        field is None ==> r == *current,
        field matches Some(f) ==> r matches Some(x) && x@ == cleaned(f@),
{
    match field {
        Some(f) => Some(clean(f.as_str())),
        None => copy_text(current),
    }
}

/// Applies a partial update to account `id`. Fails with `NotFound` for an
/// unknown id, with `Conflict` when the sanitized new username or email
/// belongs to another account, and with `InternalServerError` when hashing
/// the new password fails; a failure leaves the store unchanged.
pub fn update(store: &mut Store, id: i32, upd: &UserUpdateData) -> (r: DbResult<User>)
    requires
        old(store).wf(),
    ensures
        final(store).wf(),
        old(store).user_updated(*final(store), id, *upd, r),
{
    if id < 1 || id as usize > store.users.len() {
        return Err(Error::NotFound);
    }
    let ix = (id - 1) as usize;
    let a = store.users[ix].copy();
    let name = cleaned_text(&upd.username, &a.username);
    let mail = cleaned_text(&upd.email, &a.email);
    match store.find_username(&name) {
        Some(j) => {
            if j != ix {
                return Err(Error::Conflict(String::from_str("users"), String::from_str("username")));
            }
        },
        None => {},
    }
    match store.find_email(&mail) {
        Some(j) => {
            if j != ix {
                return Err(Error::Conflict(String::from_str("users"), String::from_str("email")));
            }
        },
        None => {},
    }
    proof {
        let s = *store;
        assert(!s.update_conflicts(id, *upd)) by {
            if upd.username is Some {
                assert forall|i: int| 0 <= i < s.users@.len() && i != id - 1 implies (#[trigger] s.users@[i]).username@ != name@ by {
                    if i < ix { assert(s.users@[i].username@ != s.users@[ix as int].username@); }
                    else { assert(s.users@[ix as int].username@ != s.users@[i].username@); }
                }
            }
            if upd.email is Some {
                assert forall|i: int| 0 <= i < s.users@.len() && i != id - 1 implies (#[trigger] s.users@[i]).email@ != mail@ by {
                    if i < ix { assert(s.users@[i].email@ != s.users@[ix as int].email@); }
                    else { assert(s.users@[ix as int].email@ != s.users@[i].email@); }
                }
            }
        }
    }
    let hash = match &upd.password {
        Some(p) => match make_hash(p) {
            Ok(h) => h,
            Err(e) => {
                return Err(e);
            },
        },
        None => a.hash.clone(),
    };
    let b = User {
        id,
        username: name,
        email: mail,
        bio: cleaned_opt(&upd.bio, &a.bio),
        image: cleaned_opt(&upd.image, &a.image),
        hash,
    };
    let ghost gb = b;
    let ghost olds = *store;
    let result = b.copy();
    store.users.set(ix, b);
    proof {
        assert(store.users@[ix as int] == gb);
        assert forall|i: int, j: int| 0 <= i < j < store.users@.len() implies
            (#[trigger] store.users@[i]).username@ != (#[trigger] store.users@[j]).username@
                && store.users@[i].email@ != store.users@[j].email@ by {
            if i == ix {
                assert(store.users@[j] == olds.users@[j]);
            } else if j == ix {
                assert(store.users@[i] == olds.users@[i]);
            }
        }
        lemma_references_kept(olds, *store);
    }
    Ok(result)
}

/// User `id` follows the account with this username. Returns that account's
/// profile as `id` now sees it. Fails with `NotFound` for an unknown username,
/// and with `Conflict` for an unknown follower or an edge that already exists,
/// leaving the store unchanged.
pub fn follow(store: &mut Store, username: &String, id: i32) -> (r: DbResult<Profile>)
    requires
        old(store).wf(),
    ensures
        final(store).wf(),
        r is Err ==> *final(store) == *old(store),
        r matches Err(e) ==> (e is NotFound <==> !old(store).username_taken(username@)),
        r is Ok <==> exists|i: int|
            0 <= i < old(store).user_rows().len() && (#[trigger] old(store).user_rows()[i]).username@
                == username@ && 1 <= id <= old(store).user_rows().len()
                && !old(store).following_edges().contains((id, old(store).user_rows()[i].id)),
        r matches Ok(p) ==> exists|i: int|
            0 <= i < old(store).user_rows().len() && (#[trigger] old(store).user_rows()[i]).username@
                == username@ && final(store).following_edges() == old(store).following_edges().push(
                (id, old(store).user_rows()[i].id),
            ) && final(store).shows_profile(p, old(store).user_rows()[i].id, Some(id)),
        r is Ok ==> old(store).same_except_followings(*final(store)),
{
    let i = match store.find_username(username) {
        Some(i) => i,
        None => {
            return Err(Error::NotFound);
        },
    };
    let target = store.users[i].id;
    proof {
        assert forall|j: int| 0 <= j < store.users@.len() && (#[trigger] store.users@[j]).username@ == username@ implies j == i by {
            if j < i { assert(store.users@[j].username@ != store.users@[i as int].username@); }
            else if j > i { assert(store.users@[i as int].username@ != store.users@[j].username@); }
        }
    }
    if id < 1 || id as usize > store.users.len() || has_pair(&store.followings, (id, target)) {
        return Err(Error::Conflict(String::from_str("followings"), String::from_str("follower_id, followed_id")));
    }
    let ghost olds = *store;
    store.followings.push((id, target));
    proof {
        assert forall|k: int| 0 <= k < store.followings@.len() implies {
            let p = #[trigger] store.followings@[k];
            &&& store.valid_user(p.0)
            &&& store.valid_user(p.1)
        } by {
            if k < olds.followings@.len() { assert(store.followings@[k] == olds.followings@[k]); }
        }
        assert(store.followings@.no_duplicates()) by {
            assert forall|p: int, q: int| 0 <= p < q < store.followings@.len() implies store.followings@[p] != store.followings@[q] by {
                if q == olds.followings@.len() {
                    assert(olds.followings@[p] == store.followings@[p]);
                }
            }
        }
        lemma_references_kept(olds, *store);
        assert(olds.user_rows()[i as int].username@ == username@);
    }
    Ok(store.profile_for(target, Some(id)))
}

/// User `id` stops following the account with this username. Returns that
/// account's profile as `id` now sees it. Fails with `NotFound` for an unknown
/// username or an edge that does not exist, leaving the store unchanged.
pub fn unfollow(store: &mut Store, username: &String, id: i32) -> (r: DbResult<Profile>)
    requires
        old(store).wf(),
    ensures
        final(store).wf(),
        r is Err ==> *final(store) == *old(store),
        r matches Err(e) ==> e is NotFound,
        r is Ok <==> exists|i: int|
            0 <= i < old(store).user_rows().len() && (#[trigger] old(store).user_rows()[i]).username@
                == username@ && old(store).following_edges().contains((id, old(store).user_rows()[i].id)),
        r matches Ok(p) ==> exists|i: int, k: int|
            0 <= i < old(store).user_rows().len() && 0 <= k < old(store).following_edges().len()
                && (#[trigger] old(store).user_rows()[i]).username@ == username@
                && #[trigger] old(store).following_edges()[k] == (id, old(store).user_rows()[i].id)
                && final(store).following_edges() == old(store).following_edges().remove(k)
                && final(store).shows_profile(p, old(store).user_rows()[i].id, Some(id)),
        r is Ok ==> old(store).same_except_followings(*final(store)),
{
    let i = match store.find_username(username) {
        Some(i) => i,
        None => {
            return Err(Error::NotFound);
        },
    };
    let target = store.users[i].id;
    proof {
        assert forall|j: int| 0 <= j < store.users@.len() && (#[trigger] store.users@[j]).username@ == username@ implies j == i by {
            if j < i { assert(store.users@[j].username@ != store.users@[i as int].username@); }
            else if j > i { assert(store.users@[i as int].username@ != store.users@[j].username@); }
        }
    }
    let k = match find_pair(&store.followings, (id, target)) {
        Some(k) => k,
        None => {
            return Err(Error::NotFound);
        },
    };
    let ghost olds = *store;
    store.followings.remove(k);
    proof {
        assert forall|q: int| 0 <= q < store.followings@.len() implies {
            let p = #[trigger] store.followings@[q];
            &&& store.valid_user(p.0)
            &&& store.valid_user(p.1)
        } by {
            if q < k { assert(store.followings@[q] == olds.followings@[q]); }
            else { assert(store.followings@[q] == olds.followings@[q + 1]); }
        }
        assert(store.followings@.no_duplicates()) by {
            assert forall|p: int, q: int| 0 <= p < q < store.followings@.len() implies store.followings@[p] != store.followings@[q] by {
                let pp = if p < k { p } else { p + 1 };
                let qq = if q < k { q } else { q + 1 };
                assert(store.followings@[p] == olds.followings@[pp]);
                assert(store.followings@[q] == olds.followings@[qq]);
            }
        }
        lemma_references_kept(olds, *store);
        assert(olds.user_rows()[i as int].username@ == username@);
        assert(olds.following_edges()[k as int] == (id, target));
    }
    Ok(store.profile_for(target, Some(id)))
}

} // verus!
