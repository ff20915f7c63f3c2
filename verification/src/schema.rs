//! Row types of the relational model: users, worlds, articles, comments and
//! the two queue tables.
//!
//! Clock values (`last_updated`, `last_checked`, `last_seen`) are seconds on
//! a single monotone wall clock, supplied by the caller.

use crate::datetime::DateTime;
use crate::text::clone_opt_string;
use vstd::prelude::*;

verus! {

/// A comment author seen on article pages, deduplicated by its external
/// identifier.
#[derive(Clone)]
pub struct WorldAnvilUser {
    pub id: i64,
    pub worldanvil_id: Option<String>,
    pub name: String,
    pub avatar_url: Option<String>,
}

impl WorldAnvilUser {
    /// An exact copy of this row.
    pub fn duplicate(&self) -> (r: Self)
        ensures
            r == *self,
    {
        WorldAnvilUser {
            id: self.id,
            worldanvil_id: clone_opt_string(&self.worldanvil_id),
            name: self.name.clone(),
            avatar_url: clone_opt_string(&self.avatar_url),
        }
    }
}

/// The relevant info for inserting a comment author.
#[derive(Clone)]
pub struct WorldAnvilUserInsert {
    pub worldanvil_id: Option<String>,
    pub name: String,
    pub avatar_url: Option<String>,
}

impl WorldAnvilUserInsert {
    /// An exact copy of this record.
    pub fn duplicate(&self) -> (r: Self)
        ensures
            r == *self,
    {
        WorldAnvilUserInsert {
            worldanvil_id: clone_opt_string(&self.worldanvil_id),
            name: self.name.clone(),
            avatar_url: clone_opt_string(&self.avatar_url),
        }
    }
}

/// An account of this service.
#[derive(Clone)]
pub struct CommentaterUser {
    pub id: i64,
    pub display_name: Option<String>,
    pub worldanvil_id: String,
    pub last_seen: i64,
    pub api_key: String,
}

impl CommentaterUser {
    /// An exact copy of this row.
    pub fn duplicate(&self) -> (r: Self)
        ensures
            r == *self,
    {
        CommentaterUser {
            id: self.id,
            display_name: clone_opt_string(&self.display_name),
            worldanvil_id: self.worldanvil_id.clone(),
            last_seen: self.last_seen,
            api_key: self.api_key.clone(),
        }
    }
}

#[derive(Clone)]
pub struct World {
    pub id: i64,
    pub user_id: i64,
    pub worldanvil_id: String,
    pub name: String,
}

impl World {
    /// An exact copy of this row.
    pub fn duplicate(&self) -> (r: Self)
        ensures
            r == *self,
    {
        World {
            id: self.id,
            user_id: self.user_id,
            worldanvil_id: self.worldanvil_id.clone(),
            name: self.name.clone(),
        }
    }
}

#[derive(Clone)]
pub struct WorldInsert {
    pub worldanvil_id: String,
    pub name: String,
}

#[derive(Clone)]
pub struct Article {
    pub id: i64,
    pub user_id: i64,
    pub world_id: i64,
    pub url: String,
    pub last_checked: Option<i64>,
}

#[derive(Clone)]
pub struct ArticleDetails {
    pub id: i64,
    pub user_id: i64,
    pub world_id: i64,
    pub url: String,
    pub last_checked: Option<i64>,
    pub title: String,
    pub worldanvil_id: Option<String>,
}

impl ArticleDetails {
    /// An exact copy of this row.
    pub fn duplicate(&self) -> (r: Self)
        ensures
            r == *self,
    {
        ArticleDetails {
            id: self.id,
            user_id: self.user_id,
            world_id: self.world_id,
            url: self.url.clone(),
            last_checked: self.last_checked,
            title: self.title.clone(),
            worldanvil_id: clone_opt_string(&self.worldanvil_id),
        }
    }

    /// The article row without its content columns.
    pub fn as_article(&self) -> (r: Article)
        ensures
            r.id == self.id,
            r.user_id == self.user_id,
            r.world_id == self.world_id,
            r.url == self.url,
            r.last_checked == self.last_checked,
    {
        Article {
            id: self.id,
            user_id: self.user_id,
            world_id: self.world_id,
            url: self.url.clone(),
            last_checked: self.last_checked,
        }
    }
}

/// Per-article content record, upserted on every successful parse.
#[derive(Clone)]
pub struct ArticleContent {
    pub id: i64,
    pub article_id: i64,
    pub worldanvil_id: String,
    pub title: String,
}

/// A stored comment: one currently-unanswered root comment of an article.
#[derive(Clone)]
pub struct Comment {
    pub id: i64,
    pub user_id: i64,
    pub author_id: Option<i64>,
    pub article_id: i64,
    pub content: String,
    pub date: DateTime,
    pub starred: bool,
    pub deleted: bool,
}

impl Comment {
    /// An exact copy of this row.
    pub fn duplicate(&self) -> (r: Self)
        ensures
            r == *self,
    {
        Comment {
            id: self.id,
            user_id: self.user_id,
            author_id: self.author_id,
            article_id: self.article_id,
            content: self.content.clone(),
            date: self.date,
            starred: self.starred,
            deleted: self.deleted,
        }
    }
}

impl Comment {
    /// The unique key for this comment.
    pub fn key(&self) -> (r: Option<(i64, DateTime)>)
        ensures
            r == match self.author_id {
                Some(author_id) => Some((author_id, self.date)),
                None => None::<(i64, DateTime)>,
            },
    {
        match self.author_id {
            Some(author_id) => Some((author_id, self.date)),
            None => None,
        }
    }
}

/// A comment row ready for insertion.
#[derive(Clone)]
pub struct CommentInsert {
    pub user_id: i64,
    pub author_id: i64,
    pub article_id: i64,
    pub content: String,
    pub date: DateTime,
}

pub struct CommentReplies {
    pub id: i64,
    pub user_id: i64,
    pub article_id: i64,
    pub parent: i64,
    pub content: String,
    pub date: DateTime,
    pub starred: bool,
    pub deleted: bool,
}

/// One pending or finished request to re-sync a single article.
#[derive(Clone, Copy, PartialEq, Eq, Structural, Debug)]
pub struct ArticleQueueEntry {
    pub id: i64,
    pub user_id: i64,
    pub article_id: i64,
}

/// One row of the per-user fairness queue.
#[derive(Clone, Copy, PartialEq, Eq, Structural, Debug)]
pub struct UserQueue {
    pub id: i64,
    pub user_id: i64,
    pub last_updated: i64,
}

/// An article row joined with its latest queue outcome and its count of
/// stored comments, as the presentation layer reads it.
#[derive(Clone)]
pub struct RawArticleAndStatus {
    pub article_id: i64,
    pub title: String,
    pub url: String,
    pub last_checked: Option<i64>,
    pub done: Option<bool>,
    pub error: Option<bool>,
    pub error_msg: Option<String>,
    pub unanswered_comments: Option<i64>,
}

impl RawArticleAndStatus {
    /// Collapse the nullable join columns: a `done` value means the article
    /// has a latest queue outcome, and a missing comment count means zero.
    pub fn into_article_and_status(self) -> (r: ArticleAndStatus)
        ensures
            r.article_id == self.article_id,
            r.title == self.title,
            r.url == self.url,
            r.last_checked == self.last_checked,
            r.status == match self.done {
                Some(done) => Some(
                    ArticleStatus { done, error: self.error, error_msg: self.error_msg },
                ),
                None => None::<ArticleStatus>,
            },
            r.unanswered_comments == match self.unanswered_comments {
                Some(n) => n,
                None => 0,
            },
    {
        let RawArticleAndStatus {
            article_id,
            title,
            url,
            last_checked,
            done,
            error,
            error_msg,
            unanswered_comments,
        } = self;
        let status = match done {
            Some(done) => Some(ArticleStatus { done, error, error_msg }),
            None => None,
        };
        let unanswered_comments = match unanswered_comments {
            Some(n) => n,
            None => 0,
        };
        ArticleAndStatus { article_id, title, url, last_checked, status, unanswered_comments }
    }
}

#[derive(Clone)]
pub struct ArticleAndStatus {
    pub article_id: i64,
    pub title: String,
    pub url: String,
    pub last_checked: Option<i64>,
    pub status: Option<ArticleStatus>,
    pub unanswered_comments: i64,
}

/// The latest queue outcome recorded for an article.
#[derive(Clone)]
pub struct ArticleStatus {
    pub done: bool,
    pub error: Option<bool>,
    pub error_msg: Option<String>,
}

} // verus!
