pub mod articles;
pub mod comments;
pub mod users;
