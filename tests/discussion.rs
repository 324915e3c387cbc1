use conduit::db::store::Store;
use conduit::db::{articles, comments, users};
use conduit::errors::Error;
use conduit::models::article::NewArticleData;
use conduit::models::comment::NewCommentData;

fn s(x: &str) -> String {
    x.to_string()
}

fn setup() -> (Store, i32, i32, String) {
    let mut store = Store::new();
    let ada = match users::create(&mut store, &s("ada"), &s("ada@example.com"), &s("pw")) {
        Ok(u) => u.id,
        Err(e) => panic!("{:?}", e),
    };
    let bob = match users::create(&mut store, &s("bob"), &s("bob@example.com"), &s("pw")) {
        Ok(u) => u.id,
        Err(e) => panic!("{:?}", e),
    };
    let data = NewArticleData { title: s("Talk"), description: s("d"), body: s("b"), tag_list: None };
    let slug = match articles::create(&mut store, &data, ada, 1) {
        Ok(a) => a.slug,
        Err(e) => panic!("{:?}", e),
    };
    (store, ada, bob, slug)
}

#[test]
fn comments_list_newest_first() {
    let (mut store, ada, bob, slug) = setup();
    for (k, text) in ["first", "second", "third"].iter().enumerate() {
        let who = if k % 2 == 0 { ada } else { bob };
        assert!(comments::create(&mut store, who, &slug, &NewCommentData { body: s(text) }, 10 + k as i64).is_ok());
    }
    let list = match comments::for_article(&store, Some(ada), &slug) {
        Ok(l) => l,
        Err(e) => panic!("{:?}", e),
    };
    assert_eq!(list.comments_count, 3);
    let bodies: Vec<&str> = list.comments.iter().map(|c| c.body.as_str()).collect();
    assert_eq!(bodies, vec!["third", "second", "first"]);
    assert_eq!(list.comments[1].author.username, "bob");
    assert!(!list.comments[1].author.following);
}

#[test]
fn non_author_cannot_delete_comment() {
    let (mut store, ada, bob, slug) = setup();
    let c = match comments::create(&mut store, ada, &slug, &NewCommentData { body: s("mine") }, 5) {
        Ok(c) => c,
        Err(e) => panic!("{:?}", e),
    };
    assert!(matches!(comments::delete(&mut store, bob, &slug, c.id), Err(Error::Forbidden)));
    let list = match comments::for_article(&store, None, &slug) {
        Ok(l) => l,
        Err(e) => panic!("{:?}", e),
    };
    assert_eq!(list.comments.len(), 1);
    assert_eq!(list.comments[0].id, c.id);
    assert!(matches!(comments::delete(&mut store, ada, &slug, c.id + 100), Err(Error::NotFound)));
    match comments::delete(&mut store, ada, &slug, c.id) {
        Ok(d) => assert_eq!(d.body, "mine"),
        Err(e) => panic!("{:?}", e),
    }
    let after = match comments::for_article(&store, None, &slug) {
        Ok(l) => l,
        Err(e) => panic!("{:?}", e),
    };
    assert!(after.comments.is_empty());
}

#[test]
fn comment_on_unknown_article_is_not_found() {
    let (mut store, ada, _bob, _slug) = setup();
    let c = NewCommentData { body: s("hello") };
    assert!(matches!(comments::create(&mut store, ada, &s("missing"), &c, 1), Err(Error::NotFound)));
    assert!(matches!(comments::for_article(&store, None, &s("missing")), Err(Error::NotFound)));
}

#[test]
fn comment_body_is_sanitized() {
    let (mut store, ada, _bob, slug) = setup();
    let c = NewCommentData { body: s("ok<script>bad()</script>") };
    match comments::create(&mut store, ada, &slug, &c, 1) {
        Ok(x) => {
            assert_eq!(x.body, "ok");
            assert_eq!(x.author.username, "ada");
        }
        Err(e) => panic!("{:?}", e),
    }
}
