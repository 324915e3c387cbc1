use conduit::authentication::AuthData;
use conduit::db::store::Store;
use conduit::db::users;
use conduit::errors::Error;
use conduit::models::user::{NewUserData, UserUpdateData};
use conduit::routes::users::{register, update_current_user, UserWrapper};

fn s(x: &str) -> String {
    x.to_string()
}

fn add_user(store: &mut Store, name: &str) -> i32 {
    match users::create(store, &s(name), &format!("{}@example.com", name), &s("secret-pw")) {
        Ok(u) => u.id,
        Err(e) => panic!("registration failed: {:?}", e),
    }
}

#[test]
fn register_and_authenticate() {
    let mut store = Store::new();
    let id = add_user(&mut store, "ada");
    assert_eq!(id, 1);
    match users::authenticate(&store, &s("ada@example.com"), &s("secret-pw")) {
        Ok(u) => {
            assert_eq!(u.id, 1);
            assert_eq!(u.username, "ada");
            assert_ne!(u.hash, "secret-pw");
        }
        Err(e) => panic!("{:?}", e),
    }
}

#[test]
fn wrong_password_and_unknown_email_look_alike() {
    let mut store = Store::new();
    add_user(&mut store, "ada");
    assert!(matches!(users::authenticate(&store, &s("ada@example.com"), &s("nope")), Err(Error::AuthError)));
    assert!(matches!(users::authenticate(&store, &s("who@example.com"), &s("secret-pw")), Err(Error::AuthError)));
}

#[test]
fn duplicate_username_or_email_conflicts() {
    let mut store = Store::new();
    add_user(&mut store, "ada");
    assert!(matches!(
        users::create(&mut store, &s("ada"), &s("other@example.com"), &s("pw")),
        Err(Error::Conflict(..))
    ));
    assert!(matches!(
        users::create(&mut store, &s("ada2"), &s("ada@example.com"), &s("pw")),
        Err(Error::Conflict(..))
    ));
    assert!(matches!(users::find_by_id(&store, 2), Err(Error::NotFound)));
}

#[test]
fn register_validates_fields() {
    let mut store = Store::new();
    let bad = UserWrapper { user: NewUserData { username: s(""), email: s("not-an-email"), password: s("") } };
    match register(&mut store, &bad) {
        Err(Error::ValidationFailed(errs)) => {
            let fields: Vec<&str> = errs.iter().map(|e| e.field.as_str()).collect();
            assert_eq!(fields, vec!["username", "email", "password"]);
            assert_eq!(errs[1].message, "is invalid");
        }
        other => panic!("unexpected {:?}", other),
    }
    let empty_email = UserWrapper { user: NewUserData { username: s("x"), email: s(""), password: s("p") } };
    match register(&mut store, &empty_email) {
        Err(Error::ValidationFailed(errs)) => {
            assert_eq!(errs.len(), 1);
            assert_eq!(errs[0].field, "email");
            assert_eq!(errs[0].message, "is empty");
        }
        other => panic!("unexpected {:?}", other),
    }
    assert!(matches!(users::find_by_id(&store, 1), Err(Error::NotFound)));
}

#[test]
fn profile_following_flag_is_viewer_relative() {
    let mut store = Store::new();
    let ada = add_user(&mut store, "ada");
    add_user(&mut store, "bob");
    let ada_auth = Some(AuthData { id: ada, username: s("ada"), exp: 0 });
    assert!(users::follow(&mut store, &s("bob"), ada).is_ok());
    assert!(matches!(users::follow(&mut store, &s("bob"), ada), Err(Error::Conflict(..))));
    match users::profile(&store, &s("bob"), &ada_auth) {
        Ok(p) => assert!(p.following),
        Err(e) => panic!("{:?}", e),
    }
    match users::profile(&store, &s("bob"), &None) {
        Ok(p) => assert!(!p.following),
        Err(e) => panic!("{:?}", e),
    }
    match users::profile(&store, &s("ada"), &ada_auth) {
        Ok(p) => assert!(!p.following),
        Err(e) => panic!("{:?}", e),
    }
    assert!(matches!(users::profile(&store, &s("zed"), &None), Err(Error::NotFound)));
    match users::unfollow(&mut store, &s("bob"), ada) {
        Ok(p) => assert!(!p.following),
        Err(e) => panic!("{:?}", e),
    }
    assert!(matches!(users::unfollow(&mut store, &s("bob"), ada), Err(Error::NotFound)));
}

#[test]
fn partial_update_changes_only_given_fields() {
    let mut store = Store::new();
    let ada = add_user(&mut store, "ada");
    add_user(&mut store, "bob");
    let upd = UserUpdateData { username: None, email: None, password: None, bio: Some(s("hello")), image: None };
    match users::update(&mut store, ada, &upd) {
        Ok(u) => {
            assert_eq!(u.username, "ada");
            assert_eq!(u.bio, Some(s("hello")));
            assert_eq!(u.image, None);
        }
        Err(e) => panic!("{:?}", e),
    }
    let taken = UserUpdateData { username: Some(s("bob")), email: None, password: None, bio: None, image: None };
    assert!(matches!(users::update(&mut store, ada, &taken), Err(Error::Conflict(..))));
    let pw = UserUpdateData { username: None, email: None, password: Some(s("new-pw")), bio: None, image: None };
    assert!(users::update(&mut store, ada, &pw).is_ok());
    assert!(users::authenticate(&store, &s("ada@example.com"), &s("new-pw")).is_ok());
    assert!(matches!(users::authenticate(&store, &s("ada@example.com"), &s("secret-pw")), Err(Error::AuthError)));
    assert!(matches!(users::update(&mut store, 9, &upd), Err(Error::NotFound)));
}

#[test]
fn update_current_user_validates_fields() {
    let mut store = Store::new();
    let ada = add_user(&mut store, "ada");
    let auth = AuthData { id: ada, username: s("ada"), exp: 0 };
    let data = UserWrapper {
        user: UserUpdateData { username: Some(s("")), email: Some(s("bad")), password: None, bio: None, image: None },
    };
    match update_current_user(&mut store, &auth, &data) {
        Err(Error::ValidationFailed(errs)) => {
            let fields: Vec<&str> = errs.iter().map(|e| e.field.as_str()).collect();
            assert_eq!(fields, vec!["username", "email"]);
        }
        other => panic!("unexpected {:?}", other),
    }
    let ok = UserWrapper {
        user: UserUpdateData { username: None, email: Some(s("ada@new.org")), password: None, bio: None, image: None },
    };
    match update_current_user(&mut store, &auth, &ok) {
        Ok(u) => assert_eq!(u.email, "ada@new.org"),
        Err(e) => panic!("{:?}", e),
    }
}

#[test]
fn register_reports_taken_names_as_conflict() {
    let mut store = Store::new();
    add_user(&mut store, "ada");
    let again = UserWrapper {
        user: NewUserData { username: s("ada"), email: s("ada2@example.com"), password: s("pw") },
    };
    assert!(matches!(register(&mut store, &again), Err(Error::Conflict(..))));
    let fresh = UserWrapper {
        user: NewUserData { username: s("bea"), email: s("bea@example.com"), password: s("pw") },
    };
    match register(&mut store, &fresh) {
        Ok(u) => assert_eq!(u.id, 2),
        Err(e) => panic!("{:?}", e),
    }
}
