pub mod articles;
pub mod comments;
pub mod get_articles;
pub mod get_comments;
pub mod limits;
pub mod select_article_by_slug;
pub mod store;
pub mod user_feed;
pub mod users;
