//! The relational store, modeled in memory: one `Vec` per table, a shared
//! identifier allocator, and a row-lock flag on the two queue tables.
//!
//! Every operation of the queue, article, comment, user and world modules
//! mutates a `Store` and is specified against it. Row locks model the
//! non-blocking `SELECT ... FOR UPDATE SKIP LOCKED` primitive: a locked row
//! is skipped by selection and unlocked when the owning cycle ends.

use crate::schema::{
    ArticleContent, ArticleDetails, ArticleQueueEntry, Comment, CommentaterUser, UserQueue, World,
    WorldAnvilUser,
};
use vstd::prelude::*;

verus! {

/// A storage failure: a lookup that found no row where one was demanded,
/// or running out of fresh row identifiers.
#[derive(Clone, Copy, PartialEq, Eq, Structural, Debug)]
pub enum StoreError {
    NotFound,
    Full,
}

/// One row of the per-user fairness queue, with its lock flag.
#[derive(Clone, Copy, PartialEq, Eq, Structural, Debug)]
pub struct UserQueueRow {
    pub queue: UserQueue,
    pub locked: bool,
}

/// One row of the per-user task queue, with its terminal outcome columns
/// and its lock flag.
#[derive(Clone)]
pub struct ArticleQueueRow {
    pub entry: ArticleQueueEntry,
    pub done: bool,
    pub error: Option<bool>,
    pub error_msg: Option<String>,
    pub locked: bool,
}

pub struct Store {
    pub wa_users: Vec<WorldAnvilUser>,
    pub users: Vec<CommentaterUser>,
    pub worlds: Vec<World>,
    pub articles: Vec<ArticleDetails>,
    pub contents: Vec<ArticleContent>,
    pub comments: Vec<Comment>,
    pub user_queue: Vec<UserQueueRow>,
    pub tasks: Vec<ArticleQueueRow>,
    /// The next row identifier to hand out; every identifier in every
    /// table is below this mark.
    pub next_id: i64,
}

impl Store {
    /// Well-formedness: identifiers are positive and below the allocator
    /// mark; in the tables that selection and completion key on, they are
    /// unique; each non-null external author identifier, each account key
    /// and each content record's article appear at most once; table sizes
    /// stay below the allocator mark so counts fit the integer types.
    pub open spec fn wf(self) -> bool {
        &&& 1 <= self.next_id
        &&& (forall|i: int|
            0 <= i < self.wa_users@.len() ==> 1 <= #[trigger] self.wa_users@[i].id
                < self.next_id)
        &&& (forall|i: int, j: int|
            0 <= i < j < self.wa_users@.len() ==> self.wa_users@[i].id != self.wa_users@[j].id)
        &&& (forall|i: int, j: int|
            0 <= i < j < self.wa_users@.len() ==> !((#[trigger] self.wa_users@[i].worldanvil_id)
                matches Some(a) && (#[trigger] self.wa_users@[j].worldanvil_id) matches Some(b)
                && a@ == b@))
        &&& self.wa_users@.len() < self.next_id
        &&& (forall|i: int|
            0 <= i < self.users@.len() ==> 1 <= #[trigger] self.users@[i].id < self.next_id)
        &&& (forall|i: int, j: int|
            0 <= i < j < self.users@.len() ==> self.users@[i].id != self.users@[j].id)
        &&& (forall|i: int, j: int|
            0 <= i < j < self.users@.len() ==> self.users@[i].api_key@ != self.users@[j].api_key@)
        &&& self.users@.len() < self.next_id
        &&& (forall|i: int|
            0 <= i < self.worlds@.len() ==> 1 <= #[trigger] self.worlds@[i].id < self.next_id)
        &&& self.worlds@.len() < self.next_id
        &&& (forall|i: int|
            0 <= i < self.articles@.len() ==> 1 <= #[trigger] self.articles@[i].id < self.next_id)
        &&& self.articles@.len() < self.next_id
        &&& (forall|i: int|
            0 <= i < self.contents@.len() ==> 1 <= #[trigger] self.contents@[i].id < self.next_id)
        &&& (forall|i: int, j: int|
            0 <= i < j < self.contents@.len() ==> self.contents@[i].id != self.contents@[j].id)
        &&& (forall|i: int, j: int|
            0 <= i < j < self.contents@.len() ==> self.contents@[i].article_id
                != self.contents@[j].article_id)
        &&& self.contents@.len() < self.next_id
        &&& (forall|i: int|
            0 <= i < self.comments@.len() ==> 1 <= #[trigger] self.comments@[i].id < self.next_id)
        &&& self.comments@.len() < self.next_id
        &&& (forall|i: int|
            0 <= i < self.user_queue@.len() ==> 1 <= #[trigger] self.user_queue@[i].queue.id
                < self.next_id)
        &&& (forall|i: int, j: int|
            0 <= i < j < self.user_queue@.len() ==> self.user_queue@[i].queue.id
                != self.user_queue@[j].queue.id)
        &&& self.user_queue@.len() < self.next_id
        &&& (forall|i: int|
            0 <= i < self.tasks@.len() ==> 1 <= #[trigger] self.tasks@[i].entry.id < self.next_id)
        &&& (forall|i: int, j: int|
            0 <= i < j < self.tasks@.len() ==> self.tasks@[i].entry.id != self.tasks@[j].entry.id)
        &&& self.tasks@.len() < self.next_id
    }

    /// A fresh, empty store.
    pub fn new() -> (st: Store)
        ensures
            st.wf(),
            st.wa_users@.len() == 0,
            st.users@.len() == 0,
            st.worlds@.len() == 0,
            st.articles@.len() == 0,
            st.contents@.len() == 0,
            st.comments@.len() == 0,
            st.user_queue@.len() == 0,
            st.tasks@.len() == 0,
            st.next_id == 1,
    {
        Store {
            wa_users: Vec::new(),
            users: Vec::new(),
            worlds: Vec::new(),
            articles: Vec::new(),
            contents: Vec::new(),
            comments: Vec::new(),
            user_queue: Vec::new(),
            tasks: Vec::new(),
            next_id: 1,
        }
    }
}

/// The two stores agree on everything but the account table and the
/// identifier allocator.
pub open spec fn same_except_users(pre: Store, post: Store) -> bool {
    &&& post.wa_users == pre.wa_users
    &&& post.worlds == pre.worlds
    &&& post.articles == pre.articles
    &&& post.contents == pre.contents
    &&& post.comments == pre.comments
    &&& post.user_queue == pre.user_queue
    &&& post.tasks == pre.tasks
}

/// The two stores agree on everything but the author table and the
/// identifier allocator.
pub open spec fn same_except_wa_users(pre: Store, post: Store) -> bool {
    &&& post.users == pre.users
    &&& post.worlds == pre.worlds
    &&& post.articles == pre.articles
    &&& post.contents == pre.contents
    &&& post.comments == pre.comments
    &&& post.user_queue == pre.user_queue
    &&& post.tasks == pre.tasks
}

/// The two stores agree on everything but the world table and the
/// identifier allocator.
pub open spec fn same_except_worlds(pre: Store, post: Store) -> bool {
    &&& post.wa_users == pre.wa_users
    &&& post.users == pre.users
    &&& post.articles == pre.articles
    &&& post.contents == pre.contents
    &&& post.comments == pre.comments
    &&& post.user_queue == pre.user_queue
    &&& post.tasks == pre.tasks
}

/// The two stores agree on everything but the article table and the
/// identifier allocator.
pub open spec fn same_except_articles(pre: Store, post: Store) -> bool {
    &&& post.wa_users == pre.wa_users
    &&& post.users == pre.users
    &&& post.worlds == pre.worlds
    &&& post.contents == pre.contents
    &&& post.comments == pre.comments
    &&& post.user_queue == pre.user_queue
    &&& post.tasks == pre.tasks
}

/// The two stores agree on everything but the content table and the
/// identifier allocator.
pub open spec fn same_except_contents(pre: Store, post: Store) -> bool {
    &&& post.wa_users == pre.wa_users
    &&& post.users == pre.users
    &&& post.worlds == pre.worlds
    &&& post.articles == pre.articles
    &&& post.comments == pre.comments
    &&& post.user_queue == pre.user_queue
    &&& post.tasks == pre.tasks
}

/// The two stores agree on everything but the comment table and the
/// identifier allocator.
pub open spec fn same_except_comments(pre: Store, post: Store) -> bool {
    &&& post.wa_users == pre.wa_users
    &&& post.users == pre.users
    &&& post.worlds == pre.worlds
    &&& post.articles == pre.articles
    &&& post.contents == pre.contents
    &&& post.user_queue == pre.user_queue
    &&& post.tasks == pre.tasks
}

/// The two stores agree on everything but the fairness-queue table.
pub open spec fn same_except_user_queue(pre: Store, post: Store) -> bool {
    &&& post.wa_users == pre.wa_users
    &&& post.users == pre.users
    &&& post.worlds == pre.worlds
    &&& post.articles == pre.articles
    &&& post.contents == pre.contents
    &&& post.comments == pre.comments
    &&& post.tasks == pre.tasks
    &&& post.next_id == pre.next_id
}

/// The two stores agree on everything but the task-queue table.
pub open spec fn same_except_tasks(pre: Store, post: Store) -> bool {
    &&& post.wa_users == pre.wa_users
    &&& post.users == pre.users
    &&& post.worlds == pre.worlds
    &&& post.articles == pre.articles
    &&& post.contents == pre.contents
    &&& post.comments == pre.comments
    &&& post.user_queue == pre.user_queue
    &&& post.next_id == pre.next_id
}

/// The two stores agree on everything but the task-queue table and the
/// identifier allocator.
pub open spec fn same_except_tasks_and_alloc(pre: Store, post: Store) -> bool {
    &&& post.wa_users == pre.wa_users
    &&& post.users == pre.users
    &&& post.worlds == pre.worlds
    &&& post.articles == pre.articles
    &&& post.contents == pre.contents
    &&& post.comments == pre.comments
    &&& post.user_queue == pre.user_queue
}

} // verus!
