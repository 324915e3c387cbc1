use conduit::db::get_articles::get_articles;
use conduit::db::limits::{coerce_limit, coerce_offset, LIMIT, MAX_LIMIT};
use conduit::db::user_feed::user_feed_query;

#[test]
fn limit_defaults_when_absent() {
    assert_eq!(coerce_limit(None), LIMIT);
    assert_eq!(coerce_limit(None), 20);
}

#[test]
fn limit_is_clamped_to_range() {
    assert_eq!(coerce_limit(Some(0)), 1);
    assert_eq!(coerce_limit(Some(-7)), 1);
    assert_eq!(coerce_limit(Some(1)), 1);
    assert_eq!(coerce_limit(Some(35)), 35);
    assert_eq!(coerce_limit(Some(500)), 500);
    assert_eq!(coerce_limit(Some(501)), MAX_LIMIT);
    assert_eq!(coerce_limit(Some(i32::MAX)), 500);
}

#[test]
fn offset_is_never_negative() {
    assert_eq!(coerce_offset(None), 0);
    assert_eq!(coerce_offset(Some(-3)), 0);
    assert_eq!(coerce_offset(Some(i32::MIN)), 0);
    assert_eq!(coerce_offset(Some(0)), 0);
    assert_eq!(coerce_offset(Some(12)), 12);
}

#[test]
fn queries_carry_coerced_bounds() {
    let q = get_articles(Some(0), Some(-1), Some(3), Some("rust".to_string()), None, None);
    assert_eq!(q.limit, 1);
    assert_eq!(q.offset, 0);
    assert_eq!(q.current_user, Some(3));
    assert_eq!(q.tag, Some("rust".to_string()));
    let q = get_articles(None, Some(40), None, None, None, None);
    assert_eq!(q.limit, 20);
    assert_eq!(q.offset, 40);
    let f = user_feed_query(Some(9000), None, 7);
    assert_eq!(f.limit, 500);
    assert_eq!(f.offset, 0);
    assert_eq!(f.user_id, 7);
}
