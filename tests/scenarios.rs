use conduit::authentication::AuthData;
use conduit::db::articles;
use conduit::db::store::Store;
use conduit::db::{comments, users};
use conduit::errors::Error;
use conduit::models::article::{Article, NewArticleData, UpdateArticleData};
use conduit::models::comment::NewCommentData;
use conduit::models::user::{LoginData, NewUserData};
use conduit::routes::articles::{new_article, ArticleWrapper};
use conduit::routes::users::{login, register, UserWrapper};

fn s(x: &str) -> String {
    x.to_string()
}

fn add_user(store: &mut Store, name: &str) -> i32 {
    match users::create(store, &s(name), &format!("{}@example.com", name), &s("secret-pw")) {
        Ok(u) => u.id,
        Err(e) => panic!("registration failed: {:?}", e),
    }
}

fn post(store: &mut Store, author: i32, title: &str, tags: Option<Vec<&str>>, now: i64) -> Article {
    let data = NewArticleData {
        title: s(title),
        description: s("about it"),
        body: s("the body"),
        tag_list: tags.map(|v| v.into_iter().map(s).collect()),
    };
    match articles::create(store, &data, author, now) {
        Ok(a) => a,
        Err(e) => panic!("create failed: {:?}", e),
    }
}

fn listing(store: &Store, viewer: Option<i32>) -> Vec<Article> {
    match articles::articles(store, None, None, None, None, None, viewer) {
        Ok(l) => l.articles,
        Err(e) => panic!("listing failed: {:?}", e),
    }
}

#[test]
fn scenario_register_login_create_list() {
    let mut store = Store::new();
    let reg = UserWrapper {
        user: NewUserData { username: s("ada"), email: s("ada@example.com"), password: s("pw-ada") },
    };
    let ada = match register(&mut store, &reg) {
        Ok(u) => u,
        Err(e) => panic!("{:?}", e),
    };
    assert_eq!(ada.username, "ada");
    let creds = UserWrapper { user: LoginData { email: s("ada@example.com"), password: s("pw-ada") } };
    let logged = match login(&store, &creds) {
        Ok(u) => u,
        Err(e) => panic!("{:?}", e),
    };
    assert_eq!(logged.id, ada.id);
    let auth = AuthData { id: logged.id, username: logged.username.clone(), exp: i32::MAX };
    let data = ArticleWrapper {
        article: NewArticleData {
            title: s("Hello World"),
            description: s("greeting"),
            body: s("hi there"),
            tag_list: None,
        },
    };
    let created = match new_article(&mut store, &auth, &data, 1000) {
        Ok(a) => a,
        Err(e) => panic!("{:?}", e),
    };
    let list = listing(&store, None);
    assert_eq!(list.len(), 1);
    let a = &list[0];
    assert_eq!(a.slug, created.slug);
    assert_eq!(a.title, "Hello World");
    assert!(!a.favorited);
    assert!(a.tag_list.is_empty());
    assert_eq!(a.favorites_count, 0);
    assert_eq!(a.author.username, "ada");
    assert!(!a.author.following);
}

#[test]
fn scenario_favorite_counts_and_viewer_flags() {
    let mut store = Store::new();
    let ada = add_user(&mut store, "ada");
    let bob = add_user(&mut store, "bob");
    let art = post(&mut store, ada, "Hello World", None, 10);
    let fav = match articles::favorite(&mut store, bob, &art.slug) {
        Ok(a) => a,
        Err(e) => panic!("{:?}", e),
    };
    assert_eq!(fav.favorites_count, 1);
    assert!(fav.favorited);
    let as_bob = listing(&store, Some(bob));
    assert_eq!(as_bob[0].favorites_count, 1);
    assert!(as_bob[0].favorited);
    let as_ada = listing(&store, Some(ada));
    assert_eq!(as_ada[0].favorites_count, 1);
    assert!(!as_ada[0].favorited);
    let anon = listing(&store, None);
    assert!(!anon[0].favorited);
    assert_eq!(anon[0].favorites_count, 1);
}

#[test]
fn scenario_feed_follows_authors() {
    let mut store = Store::new();
    let ada = add_user(&mut store, "ada");
    let bob = add_user(&mut store, "bob");
    let carol = add_user(&mut store, "carol");
    match users::follow(&mut store, &s("bob"), ada) {
        Ok(p) => {
            assert_eq!(p.username, "bob");
            assert!(p.following);
        }
        Err(e) => panic!("{:?}", e),
    }
    let x = post(&mut store, bob, "Article X", None, 5);
    let feed = match articles::user_feed(&store, ada, None, None) {
        Ok(l) => l,
        Err(e) => panic!("{:?}", e),
    };
    assert_eq!(feed.articles_count, 1);
    assert_eq!(feed.articles.len(), 1);
    assert_eq!(feed.articles[0].slug, x.slug);
    assert!(feed.articles[0].author.following);
    let other = match articles::user_feed(&store, carol, None, None) {
        Ok(l) => l,
        Err(e) => panic!("{:?}", e),
    };
    assert_eq!(other.articles_count, 0);
    assert!(other.articles.is_empty());
}

#[test]
fn scenario_zero_limit_gives_one_item() {
    let mut store = Store::new();
    let ada = add_user(&mut store, "ada");
    post(&mut store, ada, "One", None, 1);
    post(&mut store, ada, "Two", None, 2);
    post(&mut store, ada, "Three", None, 3);
    let page = match articles::articles(&store, None, None, None, Some(0), None, None) {
        Ok(l) => l,
        Err(e) => panic!("{:?}", e),
    };
    assert_eq!(page.articles.len(), 1);
    assert_eq!(page.articles_count, 3);
    assert_eq!(page.articles[0].title, "Three");
}

#[test]
fn listing_pages_newest_first() {
    let mut store = Store::new();
    let ada = add_user(&mut store, "ada");
    for (k, t) in ["A", "B", "C", "D", "E"].iter().enumerate() {
        post(&mut store, ada, t, None, 100 + k as i64);
    }
    let page = match articles::articles(&store, None, None, Some(1), Some(2), None, None) {
        Ok(l) => l,
        Err(e) => panic!("{:?}", e),
    };
    let titles: Vec<&str> = page.articles.iter().map(|a| a.title.as_str()).collect();
    assert_eq!(titles, vec!["D", "C"]);
    assert_eq!(page.articles_count, 5);
    let tail = match articles::articles(&store, None, None, Some(-4), Some(600), None, None) {
        Ok(l) => l,
        Err(e) => panic!("{:?}", e),
    };
    assert_eq!(tail.articles.len(), 5);
    let past = match articles::articles(&store, None, None, Some(9), None, None, None) {
        Ok(l) => l,
        Err(e) => panic!("{:?}", e),
    };
    assert!(past.articles.is_empty());
    assert_eq!(past.articles_count, 5);
}

#[test]
fn timestamps_never_go_backwards() {
    let mut store = Store::new();
    let ada = add_user(&mut store, "ada");
    let first = post(&mut store, ada, "Late", None, 500);
    let second = post(&mut store, ada, "Early clock", None, 100);
    assert_eq!(first.created_at, 500);
    assert_eq!(second.created_at, 500);
    let list = listing(&store, None);
    assert_eq!(list[0].title, "Early clock");
    assert_eq!(list[1].title, "Late");
}

#[test]
fn filters_compose() {
    let mut store = Store::new();
    let ada = add_user(&mut store, "ada");
    let bob = add_user(&mut store, "bob");
    post(&mut store, ada, "Rust one", Some(vec!["rust", "web"]), 1);
    let b = post(&mut store, bob, "Rust two", Some(vec!["rust"]), 2);
    post(&mut store, bob, "Other", Some(vec!["misc"]), 3);
    let by_tag = match articles::articles(&store, Some(s("rust")), None, None, None, None, None) {
        Ok(l) => l,
        Err(e) => panic!("{:?}", e),
    };
    assert_eq!(by_tag.articles_count, 2);
    let both = match articles::articles(&store, Some(s("rust")), Some(s("bob")), None, None, None, None) {
        Ok(l) => l,
        Err(e) => panic!("{:?}", e),
    };
    assert_eq!(both.articles.len(), 1);
    assert_eq!(both.articles[0].slug, b.slug);
    let nobody = match articles::articles(&store, None, Some(s("zed")), None, None, None, None) {
        Ok(l) => l,
        Err(e) => panic!("{:?}", e),
    };
    assert_eq!(nobody.articles_count, 0);
    if let Err(e) = articles::favorite(&mut store, ada, &b.slug) {
        panic!("{:?}", e);
    }
    let faved = match articles::articles(&store, None, None, None, None, Some(s("ada")), None) {
        Ok(l) => l,
        Err(e) => panic!("{:?}", e),
    };
    assert_eq!(faved.articles.len(), 1);
    assert_eq!(faved.articles[0].slug, b.slug);
}

#[test]
fn tags_are_deduplicated_in_order() {
    let mut store = Store::new();
    let ada = add_user(&mut store, "ada");
    let a = post(&mut store, ada, "Tagged", Some(vec!["rust", "web", "rust"]), 1);
    assert_eq!(a.tag_list, vec![s("rust"), s("web")]);
    post(&mut store, ada, "Again", Some(vec!["web", "new"]), 2);
    let all = match articles::tags(&store) {
        Ok(t) => t.0,
        Err(e) => panic!("{:?}", e),
    };
    assert_eq!(all, vec![s("rust"), s("web"), s("new")]);
    let got = match articles::article(&store, None, &a.slug) {
        Ok(x) => x,
        Err(e) => panic!("{:?}", e),
    };
    assert_eq!(got.tag_list, vec![s("rust"), s("web")]);
}

#[test]
fn favorite_then_unfavorite_restores_count() {
    let mut store = Store::new();
    let ada = add_user(&mut store, "ada");
    let bob = add_user(&mut store, "bob");
    let art = post(&mut store, ada, "Count me", None, 1);
    assert!(articles::favorite(&mut store, bob, &art.slug).is_ok());
    assert!(matches!(articles::favorite(&mut store, bob, &art.slug), Err(Error::Conflict(..))));
    let after = match articles::unfavorite(&mut store, bob, &art.slug) {
        Ok(a) => a,
        Err(e) => panic!("{:?}", e),
    };
    assert_eq!(after.favorites_count, 0);
    assert!(!after.favorited);
    assert!(matches!(articles::unfavorite(&mut store, bob, &art.slug), Err(Error::NotFound)));
    let list = listing(&store, Some(bob));
    assert_eq!(list[0].favorites_count, 0);
    assert!(!list[0].favorited);
}

#[test]
fn counter_matches_edges_after_many_calls() {
    let mut store = Store::new();
    let ada = add_user(&mut store, "ada");
    let ids: Vec<i32> = ["u1", "u2", "u3", "u4"].iter().map(|n| add_user(&mut store, n)).collect();
    let art = post(&mut store, ada, "Popular", None, 1);
    for id in &ids {
        assert!(articles::favorite(&mut store, *id, &art.slug).is_ok());
    }
    assert!(articles::unfavorite(&mut store, ids[1], &art.slug).is_ok());
    assert!(articles::favorite(&mut store, ids[1], &art.slug).is_ok());
    assert!(articles::unfavorite(&mut store, ids[3], &art.slug).is_ok());
    let list = listing(&store, None);
    assert_eq!(list[0].favorites_count, 3);
    let faved = match articles::articles(&store, None, None, None, None, Some(s("u4")), None) {
        Ok(l) => l,
        Err(e) => panic!("{:?}", e),
    };
    assert_eq!(faved.articles_count, 0);
}

#[test]
fn same_title_gives_distinct_slugs() {
    let mut store = Store::new();
    let ada = add_user(&mut store, "ada");
    let mut slugs: Vec<String> = Vec::new();
    for k in 0..12 {
        let a = post(&mut store, ada, "Same Title", None, k);
        assert!(a.slug.starts_with("same-title-"));
        let suffix = &a.slug["same-title-".len()..];
        assert_eq!(suffix.len(), 8);
        assert!(suffix.chars().all(|c| c.is_ascii_alphanumeric()));
        slugs.push(a.slug);
    }
    let mut sorted = slugs.clone();
    sorted.sort();
    sorted.dedup();
    assert_eq!(sorted.len(), 12);
}

#[test]
fn update_keeps_or_remakes_slug() {
    let mut store = Store::new();
    let ada = add_user(&mut store, "ada");
    let a = post(&mut store, ada, "First Title", None, 1);
    let body_only = UpdateArticleData { title: None, description: None, body: Some(s("new body")), tag_list: None };
    let u1 = match articles::update(&mut store, ada, &a.slug, &body_only, 2) {
        Ok(x) => x,
        Err(e) => panic!("{:?}", e),
    };
    assert_eq!(u1.slug, a.slug);
    assert_eq!(u1.body, "new body");
    assert_eq!(u1.updated_at, 2);
    assert_eq!(u1.created_at, 1);
    let same_title = UpdateArticleData { title: Some(s("First Title")), description: None, body: None, tag_list: None };
    let u2 = match articles::update(&mut store, ada, &a.slug, &same_title, 3) {
        Ok(x) => x,
        Err(e) => panic!("{:?}", e),
    };
    assert_eq!(u2.slug, a.slug);
    let new_title = UpdateArticleData { title: Some(s("Fresh Name")), description: None, body: None, tag_list: None };
    let u3 = match articles::update(&mut store, ada, &a.slug, &new_title, 4) {
        Ok(x) => x,
        Err(e) => panic!("{:?}", e),
    };
    assert_ne!(u3.slug, a.slug);
    assert!(u3.slug.starts_with("fresh-name-"));
    assert_eq!(u3.title, "Fresh Name");
    assert!(matches!(articles::article(&store, None, &a.slug), Err(Error::NotFound)));
    assert!(articles::article(&store, None, &u3.slug).is_ok());
}

#[test]
fn only_the_author_updates_or_deletes() {
    let mut store = Store::new();
    let ada = add_user(&mut store, "ada");
    let bob = add_user(&mut store, "bob");
    let a = post(&mut store, ada, "Mine", None, 1);
    let change = UpdateArticleData { title: Some(s("Hijacked")), description: None, body: None, tag_list: None };
    assert!(matches!(articles::update(&mut store, bob, &a.slug, &change, 2), Err(Error::Forbidden)));
    assert!(matches!(articles::delete(&mut store, bob, &a.slug), Err(Error::Forbidden)));
    assert!(matches!(articles::delete(&mut store, ada, &s("no-such-slug")), Err(Error::NotFound)));
    assert!(matches!(articles::update(&mut store, ada, &s("no-such-slug"), &change, 2), Err(Error::NotFound)));
    let gone = match articles::delete(&mut store, ada, &a.slug) {
        Ok(x) => x,
        Err(e) => panic!("{:?}", e),
    };
    assert_eq!(gone.title, "Mine");
    assert!(listing(&store, None).is_empty());
    assert!(matches!(articles::article(&store, None, &a.slug), Err(Error::NotFound)));
}

#[test]
fn delete_removes_favorites_and_comments() {
    let mut store = Store::new();
    let ada = add_user(&mut store, "ada");
    let bob = add_user(&mut store, "bob");
    let a = post(&mut store, ada, "Doomed", Some(vec!["x"]), 1);
    let keep = post(&mut store, ada, "Kept", Some(vec!["x"]), 2);
    assert!(articles::favorite(&mut store, bob, &a.slug).is_ok());
    assert!(articles::favorite(&mut store, bob, &keep.slug).is_ok());
    let c = NewCommentData { body: s("nice") };
    assert!(comments::create(&mut store, bob, &a.slug, &c, 3).is_ok());
    assert!(articles::delete(&mut store, ada, &a.slug).is_ok());
    assert!(matches!(comments::for_article(&store, None, &a.slug), Err(Error::NotFound)));
    let faved = match articles::articles(&store, None, None, None, None, Some(s("bob")), None) {
        Ok(l) => l,
        Err(e) => panic!("{:?}", e),
    };
    assert_eq!(faved.articles_count, 1);
    assert_eq!(faved.articles[0].favorites_count, 1);
    let tagged = match articles::articles(&store, Some(s("x")), None, None, None, None, None) {
        Ok(l) => l,
        Err(e) => panic!("{:?}", e),
    };
    assert_eq!(tagged.articles_count, 1);
}

#[test]
fn create_sanitizes_text() {
    let mut store = Store::new();
    let ada = add_user(&mut store, "ada");
    let data = NewArticleData {
        title: s("Safe<script>alert(1)</script> Title"),
        description: s("<b>bold</b>"),
        body: s("plain"),
        tag_list: None,
    };
    let a = match articles::create(&mut store, &data, ada, 1) {
        Ok(a) => a,
        Err(e) => panic!("{:?}", e),
    };
    assert_eq!(a.title, "Safe Title");
    assert_eq!(a.description, "<b>bold</b>");
    assert!(!a.title.contains("script"));
}

#[test]
fn create_needs_a_known_author() {
    let mut store = Store::new();
    let data = NewArticleData { title: s("T"), description: s("d"), body: s("b"), tag_list: None };
    assert!(matches!(articles::create(&mut store, &data, 7, 1), Err(Error::NotFound)));
}

#[test]
fn new_article_rejects_empty_fields() {
    let mut store = Store::new();
    let ada = add_user(&mut store, "ada");
    let auth = AuthData { id: ada, username: s("ada"), exp: 0 };
    let data = ArticleWrapper {
        article: NewArticleData { title: s(""), description: s("d"), body: s(""), tag_list: None },
    };
    match new_article(&mut store, &auth, &data, 1) {
        Err(Error::ValidationFailed(errs)) => {
            let fields: Vec<&str> = errs.iter().map(|e| e.field.as_str()).collect();
            assert_eq!(fields, vec!["body", "title"]);
            assert_eq!(errs[0].message, "is empty");
        }
        other => panic!("unexpected {:?}", other),
    }
    assert!(listing(&store, None).is_empty());
}

#[test]
fn update_keeps_tags_and_advances_update_time() {
    let mut store = Store::new();
    let ada = add_user(&mut store, "ada");
    let a = post(&mut store, ada, "Tagged Post", Some(vec!["x", "y"]), 50);
    let change = UpdateArticleData { title: None, description: Some(s("new d")), body: None, tag_list: None };
    let u = match articles::update(&mut store, ada, &a.slug, &change, 10) {
        Ok(x) => x,
        Err(e) => panic!("{:?}", e),
    };
    assert_eq!(u.tag_list, vec![s("x"), s("y")]);
    assert_eq!(u.updated_at, 50);
    assert_eq!(u.description, "new d");
    assert_eq!(u.slug, a.slug);
}
