use crate::models::user::Profile;
use vstd::prelude::*;

verus! {

/// A comment as handed out, with its author's viewer-relative profile.
#[derive(Debug)]
pub struct Comment {
    pub id: i32,
    pub author: Profile,
    pub created_at: i64,
    pub updated_at: i64,
    pub body: String,
}

/// A stored comment.
#[derive(Debug)]
pub struct CommentQuery {
    pub id: i32,
    pub body: String,
    pub user_id: i32,
    pub article_id: i32,
    pub created_at: i64,
    pub updated_at: i64,
}

/// Comment creation input.
#[derive(Debug)]
pub struct NewCommentData {
    pub body: String,
}

/// The comments of one article, newest first, with their number.
#[derive(Debug)]
pub struct CommentList {
    pub comments: Vec<Comment>,
    pub comments_count: i64,
}

impl CommentQuery {
    /// Whether `c` shows this stored comment with the given author profile.
    pub open spec fn shown_as(&self, c: Comment, author: Profile) -> bool {
        &&& c.id == self.id
        &&& c.author == author
        &&& c.body == self.body
        &&& c.created_at == self.created_at
        &&& c.updated_at == self.updated_at
    }

    pub fn to_comment(self, author: Profile) -> (c: Comment)
        ensures
            self.shown_as(c, author),
    {
        Comment {
            id: self.id,
            author,
            body: self.body,
            updated_at: self.updated_at,
            created_at: self.created_at,
        }
    }

    /// A copy of this stored comment, equal to it.
    pub fn copy(&self) -> (r: CommentQuery)
        ensures
            r == *self,
    {
        CommentQuery {
            id: self.id,
            body: self.body.clone(),
            user_id: self.user_id,
            article_id: self.article_id,
            created_at: self.created_at,
            updated_at: self.updated_at,
        }
    }
}

} // verus!
