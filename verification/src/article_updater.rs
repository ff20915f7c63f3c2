//! One task-processing cycle: select a fair user and one of its pending
//! tasks under row locks, let the driver fetch the page, then parse and
//! reconcile. A parse failure is a domain error, recorded terminally on the
//! task; a fetch or storage failure is a system error that leaves the task
//! pending for a later cycle; on success the article's comments are
//! replaced by exactly the still-unanswered root comments of the scrape.

use crate::article::{checked_post, content_upsert_post, get_article, set_article_checked_time, update_article_content};
use crate::comments::{delete_comments, insert_comments, insert_comments_post};
use crate::parser::{
    Article, ParseError, RawPage, RootComment, article_matches, page_error_matches, page_ok,
    parse_page, raw_page_of, spec_error_message,
};
use crate::query::{update_wa_users, wa_pair_mapped};
use crate::queue::{
    complete_task, complete_task_post, eligible_user_at, get_next_task, get_next_user,
    next_task_post, next_user_post, release_task_lock, release_user_lock, selectable_task_at,
    task_unlock_post, touched_post, update_user_queue, user_unlock_post,
};
use crate::schema::{ArticleQueueEntry, CommentInsert, UserQueue, WorldAnvilUserInsert};
use crate::store::{ArticleQueueRow, Store, StoreError, UserQueueRow, same_except_comments, same_except_wa_users};
use vstd::prelude::*;

verus! {

/// A failed task outcome: whether it was unexpected (a system error, to be
/// retried) or an expected domain error, plus the user-facing message and
/// the identifiers involved.
pub struct TaskError {
    pub unhandled: bool,
    /// This may be displayed to the user.
    pub message: String,
    pub user_queue_id: i64,
    pub task_id: i64,
}

/// What one cycle produced.
pub enum TaskOutcome {
    Completed,
    NoUser,
    NoTasks,
    Error(TaskError),
}

impl ParseError {
    /// A parse failure as a handled (domain) task error carrying its
    /// user-facing message.
    pub fn into_parse_error(self, user_queue_id: i64, task_id: i64) -> (r: TaskOutcome)
        ensures
            r matches TaskOutcome::Error(te) && te.unhandled == false && te.message@
                == spec_error_message(self) && te.user_queue_id == user_queue_id && te.task_id
                == task_id,
    {
        let message = self.message();
        TaskOutcome::Error(TaskError { unhandled: false, message, user_queue_id, task_id })
    }
}

/// Find the comment indices which have no replies, in order.
pub fn find_comments_without_replies(comments: &[RootComment]) -> (r: Vec<usize>)
    ensures
        forall|k: int|
            0 <= k < r@.len() ==> (#[trigger] r@[k]) < comments@.len()
                && comments@[r@[k] as int].replies@.len() == 0,
        forall|a: int, b: int| 0 <= a < b < r@.len() ==> r@[a] < r@[b],
        forall|i: int|
            0 <= i < comments@.len() && (#[trigger] comments@[i]).replies@.len() == 0
                ==> r@.contains(i as usize),
{
    let mut r: Vec<usize> = Vec::new();
    let mut i: usize = 0;
    while i < comments.len()
        invariant
            i <= comments@.len(),
            forall|k: int|
                0 <= k < r@.len() ==> (#[trigger] r@[k]) < i && comments@[r@[k] as int].replies@.len()
                    == 0,
            forall|a: int, b: int| 0 <= a < b < r@.len() ==> r@[a] < r@[b],
            forall|m: int|
                0 <= m < i && (#[trigger] comments@[m]).replies@.len() == 0 ==> r@.contains(
                    m as usize,
                ),
        decreases comments@.len() - i,
    {
        if comments[i].replies.len() == 0 {
            let ghost prior = r@;
            r.push(i);
            proof {
                assert(r@ =~= prior.push(i as usize));
                assert(r@[r@.len() - 1] == i as usize);
                assert forall|m: int| 0 <= m < i + 1 && (#[trigger] comments@[m]).replies@.len()
                    == 0 implies r@.contains(m as usize) by {
                    if m < i as int {
                        let w = choose|w: int| 0 <= w < prior.len() && prior[w] == m as usize;
                        assert(r@[w] == m as usize);
                    } else {
                        assert(r@[r@.len() - 1] == m as usize);
                    }
                }
            }
        }
        i += 1;
    }
    r
}

/// The internal identifier a scraped author resolves to: the first pair
/// carrying its external identifier.
pub open spec fn pairs_lookup(pairs: Seq<(i64, Option<String>)>, key: Seq<char>) -> Option<i64>
    decreases pairs.len(),
{
    if pairs.len() == 0 {
        None
    } else {
        match pairs[0].1 {
            Some(w) => if w@ == key {
                Some(pairs[0].0)
            } else {
                pairs_lookup(pairs.skip(1), key)
            },
            None => pairs_lookup(pairs.skip(1), key),
        }
    }
}

/// Resolve a scraped author's external identifier to an internal one.
pub fn lookup_internal_id(pairs: &Vec<(i64, Option<String>)>, key: &str) -> (r: Option<i64>)
    ensures
        r == pairs_lookup(pairs@, key@),
{
    let mut i: usize = 0;
    proof {
        assert(pairs@.skip(0) =~= pairs@);
    }
    while i < pairs.len()
        invariant
            i <= pairs@.len(),
            pairs_lookup(pairs@.skip(i as int), key@) == pairs_lookup(pairs@, key@),
        decreases pairs@.len() - i,
    {
        proof {
            assert(pairs@.skip(i as int)[0] == pairs@[i as int]);
            assert(pairs@.skip(i as int).skip(1) =~= pairs@.skip(i + 1));
        }
        match &pairs[i].1 {
            Some(w) => {
                if crate::text::str_eq(w.as_str(), key) {
                    return Some(pairs[i].0);
                }
            },
            None => {},
        }
        i += 1;
    }
    proof {
        assert(pairs@.skip(pairs@.len() as int) =~= Seq::<(i64, Option<String>)>::empty());
    }
    None
}

/// The insertable row one root comment becomes.
pub open spec fn spec_comment_insert(
    rc: RootComment,
    internal: i64,
    user_id: i64,
    article_id: i64,
) -> CommentInsert {
    CommentInsert {
        user_id,
        author_id: internal,
        article_id,
        content: rc.comment.content,
        date: rc.comment.comment_datetime,
    }
}

/// Which scraped comments are persisted: root comments whose reply list is
/// empty (still unanswered) and whose author resolved to an internal
/// identity; unresolved authors are dropped, not an error.
pub open spec fn spec_eligible(
    comments: Seq<RootComment>,
    pairs: Seq<(i64, Option<String>)>,
    user_id: i64,
    article_id: i64,
) -> Seq<CommentInsert>
    decreases comments.len(),
{
    if comments.len() == 0 {
        Seq::empty()
    } else {
        let rest = spec_eligible(comments.drop_last(), pairs, user_id, article_id);
        let c = comments.last();
        match pairs_lookup(pairs, c.author_worldanvil_id@) {
            Some(internal) => if c.replies@.len() == 0 {
                rest.push(spec_comment_insert(c, internal, user_id, article_id))
            } else {
                rest
            },
            None => rest,
        }
    }
}

/// No scrape inserts more comment rows than it saw root comments.
pub proof fn lemma_eligible_len(
    comments: Seq<RootComment>,
    pairs: Seq<(i64, Option<String>)>,
    user_id: i64,
    article_id: i64,
)
    ensures
        spec_eligible(comments, pairs, user_id, article_id).len() <= comments.len(),
    decreases comments.len(),
{
    if comments.len() > 0 {
        lemma_eligible_len(comments.drop_last(), pairs, user_id, article_id);
    }
}

/// A scrape in which every root comment already has a reply persists
/// nothing: no comment row is inserted for it.
pub proof fn lemma_all_answered_inserts_nothing(
    comments: Seq<RootComment>,
    pairs: Seq<(i64, Option<String>)>,
    user_id: i64,
    article_id: i64,
)
    requires
        forall|k: int| 0 <= k < comments.len() ==> (#[trigger] comments[k]).replies@.len() > 0,
    ensures
        spec_eligible(comments, pairs, user_id, article_id) == Seq::<CommentInsert>::empty(),
    decreases comments.len(),
{
    if comments.len() > 0 {
        assert forall|k: int| 0 <= k < comments.drop_last().len() implies (#[trigger] comments
            .drop_last()[k]).replies@.len() > 0 by {
            assert(comments.drop_last()[k] == comments[k]);
        }
        lemma_all_answered_inserts_nothing(comments.drop_last(), pairs, user_id, article_id);
        assert(comments.last().replies@.len() > 0);
    } else {
        assert(spec_eligible(comments, pairs, user_id, article_id)
            =~= Seq::<CommentInsert>::empty());
    }
}

/// Build the insertable rows for the eligible root comments, in order.
pub fn eligible_comments(
    comments: &Vec<RootComment>,
    pairs: &Vec<(i64, Option<String>)>,
    user_id: i64,
    article_id: i64,
) -> (r: Vec<CommentInsert>)
    ensures
        r@ == spec_eligible(comments@, pairs@, user_id, article_id),
{
    let mut r: Vec<CommentInsert> = Vec::new();
    let mut i: usize = 0;
    proof {
        assert(comments@.take(0) =~= Seq::<RootComment>::empty());
    }
    while i < comments.len()
        invariant
            i <= comments@.len(),
            r@ == spec_eligible(comments@.take(i as int), pairs@, user_id, article_id),
        decreases comments@.len() - i,
    {
        proof {
            assert(comments@.take(i + 1).drop_last() =~= comments@.take(i as int));
            assert(comments@.take(i + 1).last() == comments@[i as int]);
        }
        match lookup_internal_id(pairs, comments[i].author_worldanvil_id.as_str()) {
            Some(internal) => {
                if comments[i].replies.len() == 0 {
                    let c = &comments[i];
                    r.push(CommentInsert {
                        user_id,
                        author_id: internal,
                        article_id,
                        content: c.comment.content.clone(),
                        date: c.comment.comment_datetime,
                    });
                    proof {
                        assert(r@.last() == spec_comment_insert(
                            comments@[i as int],
                            internal,
                            user_id,
                            article_id,
                        ));
                        assert(r@ =~= spec_eligible(
                            comments@.take(i + 1),
                            pairs@,
                            user_id,
                            article_id,
                        ));
                    }
                }
            },
            None => {},
        }
        i += 1;
    }
    proof {
        assert(comments@.take(comments@.len() as int) =~= comments@);
    }
    r
}

/// The author-table insert a root comment's author becomes.
pub open spec fn author_insert_of(rc: RootComment) -> WorldAnvilUserInsert {
    WorldAnvilUserInsert {
        worldanvil_id: Some(rc.author_worldanvil_id),
        name: rc.comment.author_name,
        avatar_url: Some(rc.comment.author_avatar),
    }
}

/// The comment table lost exactly the article's old comments.
pub open spec fn comments_deleted(pre: Store, post: Store, article_id: i64, user_id: i64) -> bool {
    &&& same_except_comments(pre, post)
    &&& post.next_id == pre.next_id
    &&& post.comments@ == pre.comments@.filter(
        |c: crate::schema::Comment| !(c.article_id == article_id && c.user_id == user_id),
    )
}

/// Every scraped author was upserted, in order, and the returned pairs map
/// each to its stored internal identifier.
pub open spec fn authors_upserted(
    pre: Store,
    post: Store,
    comments: Seq<RootComment>,
    pairs: Seq<(i64, Option<String>)>,
) -> bool {
    &&& same_except_wa_users(pre, post)
    &&& pre.next_id <= post.next_id
    &&& pairs.len() == comments.len()
    &&& (forall|k: int|
        0 <= k < comments.len() ==> wa_pair_mapped(
            post,
            author_insert_of(#[trigger] comments[k]),
            pairs[k],
        ))
}

/// The reconciliation chain of one successful parse: the content record
/// upserted, the article's old comments deleted, the scraped authors
/// upserted, and exactly the eligible comments inserted.
pub open spec fn inner_reconciled(pre: Store, post: Store, task: ArticleQueueEntry, parsed: Article) -> bool {
    exists|s1: Store, s2: Store, s3: Store, pairs: Seq<(i64, Option<String>)>|
        {
            &&& #[trigger] content_upsert_post(
                pre,
                s1,
                task.article_id,
                parsed.worldanvil_id@,
                parsed.title@,
            )
            &&& #[trigger] comments_deleted(s1, s2, task.article_id, task.user_id)
            &&& #[trigger] authors_upserted(s2, s3, parsed.comments@, pairs)
            &&& #[trigger] insert_comments_post(
                s3,
                post,
                task.article_id,
                task.user_id,
                spec_eligible(parsed.comments@, pairs, task.user_id, task.article_id),
            )
        }
}

/// The page's own article was reconciled into the store: the witness is
/// pinned to the page's extracted strings by [`article_matches`], which
/// fixes its every observable field.
pub open spec fn inner_success_for(pre: Store, post: Store, task: ArticleQueueEntry, raw: RawPage) -> bool {
    exists|parsed: Article|
        #[trigger] article_matches(raw, parsed) && inner_reconciled(pre, post, task, parsed)
}

/// The message is the text of the page's first parse failure.
pub open spec fn domain_message_matches(raw: RawPage, msg: Seq<char>) -> bool {
    exists|e: ParseError| #[trigger] page_error_matches(raw, e) && msg == spec_error_message(e)
}

/// The identifier allocator can absorb one cycle's worst case: one content
/// row, plus one author row and one comment row per comment box.
pub open spec fn cycle_capacity_ok(pre: Store, raw: RawPage) -> bool {
    pre.next_id + 1 + 2 * raw.comment_boxes@.len() <= i64::MAX
}

/// Parse the fetched page and reconcile it into the store: update the
/// content record, then replace the article's stored comments with exactly
/// the still-unanswered root comments whose author resolved. The page
/// determines the outcome: a page that parses is reconciled (given room in
/// the identifier allocator), a page that does not yields a handled error
/// carrying its first parse failure's message, with the store untouched.
/// `NoUser` and `NoTasks` are never returned.
pub fn update_task_inner(task: &ArticleQueueEntry, page: &str, store: &mut Store) -> (r: Result<
    TaskOutcome,
    StoreError,
>)
    requires
        old(store).wf(),
    ensures
        final(store).wf(),
        ({
            let raw = raw_page_of(page@);
            match r {
                Ok(outcome) => match outcome {
                    TaskOutcome::Completed => page_ok(raw) && cycle_capacity_ok(*old(store), raw)
                        && inner_success_for(*old(store), *final(store), *task, raw),
                    TaskOutcome::Error(te) => {
                        &&& !page_ok(raw)
                        &&& *final(store) == *old(store)
                        &&& te.unhandled == false
                        &&& te.user_queue_id == task.user_id
                        &&& te.task_id == task.id
                        &&& domain_message_matches(raw, te.message@)
                    },
                    _ => false,
                },
                Err(e) => e == StoreError::Full && *final(store) == *old(store) && page_ok(raw)
                    && !cycle_capacity_ok(*old(store), raw),
            }
        }),
{
    let ghost pre = *store;
    let ghost raw = raw_page_of(page@);
    let parsed = match parse_page(page) {
        Ok(a) => a,
        Err(e) => {
            let ghost failure = e;
            let outcome = e.into_parse_error(task.user_id, task.id);
            proof {
                assert(outcome matches TaskOutcome::Error(te) && page_error_matches(raw, failure)
                    && te.message@ == spec_error_message(failure));
                assert(outcome matches TaskOutcome::Error(te) && domain_message_matches(
                    raw,
                    te.message@,
                ));
            }
            return Ok(outcome);
        },
    };
    let n = parsed.comments.len();
    let cap = (i64::MAX - store.next_id) as u64;
    if cap < 1 || (n as u64) > (cap - 1) / 2 {
        proof {
            assert(n == raw.comment_boxes@.len());
            if cap < 1 {
                assert(pre.next_id == i64::MAX);
            } else {
                assert((n as u64) > (cap - 1) / 2);
                assert(2 * ((cap - 1) as int / 2) >= cap - 2);
                assert(2 * (n as int) >= cap as int);
            }
            assert(!cycle_capacity_ok(pre, raw));
        }
        return Err(StoreError::Full);
    }
    proof {
        assert(n == raw.comment_boxes@.len());
        assert(2 * (n as int) <= 2 * ((cap - 1) as int / 2));
        assert(2 * ((cap - 1) as int / 2) <= (cap - 1) as int);
        assert(pre.next_id + 1 + 2 * (n as int) <= i64::MAX);
        assert(cycle_capacity_ok(pre, raw));
    }
    match update_article_content(store, task.article_id, parsed.worldanvil_id.as_str(), parsed.title.as_str()) {
        Ok(_) => {},
        Err(e) => {
            proof {
                assert(false);
            }
            return Err(e);
        },
    }
    let ghost s1 = *store;
    match delete_comments(store, task.article_id, task.user_id) {
        Ok(_) => {},
        Err(e) => {
            proof {
                assert(false);
            }
            return Err(e);
        },
    }
    let ghost s2 = *store;
    let mut potential: Vec<WorldAnvilUserInsert> = Vec::new();
    let mut k: usize = 0;
    while k < parsed.comments.len()
        invariant
            k <= parsed.comments@.len(),
            potential@.len() == k,
            forall|m: int|
                0 <= m < k ==> {
                    &&& (#[trigger] potential@[m]).worldanvil_id matches Some(w) && w@
                        == parsed.comments@[m].author_worldanvil_id@
                    &&& potential@[m].name@ == parsed.comments@[m].comment.author_name@
                    &&& potential@[m].avatar_url matches Some(a) && a@
                        == parsed.comments@[m].comment.author_avatar@
                },
        decreases parsed.comments@.len() - k,
    {
        potential.push(parsed.comments[k].as_worldanvil_user());
        k += 1;
    }
    proof {
        assert(store.next_id + potential@.len() <= i64::MAX);
    }
    let pairs = match update_wa_users(store, potential) {
        Ok(p) => p,
        Err(_) => {
            proof {
                assert(false);
            }
            return Err(StoreError::Full);
        },
    };
    let ghost s3 = *store;
    proof {
        assert forall|m: int| 0 <= m < parsed.comments@.len() implies wa_pair_mapped(
            s3,
            author_insert_of(#[trigger] parsed.comments@[m]),
            pairs@[m],
        ) by {
            assert(wa_pair_mapped(s3, potential@[m], pairs@[m]));
            let j = choose|j: int|
                0 <= j < s3.wa_users@.len() && (#[trigger] s3.wa_users@[j]).id == pairs@[m].0
                    && crate::query::opt_text_eq(
                    s3.wa_users@[j].worldanvil_id,
                    potential@[m].worldanvil_id,
                ) && crate::query::opt_text_eq(pairs@[m].1, potential@[m].worldanvil_id);
            assert(crate::query::opt_text_eq(
                s3.wa_users@[j].worldanvil_id,
                author_insert_of(parsed.comments@[m]).worldanvil_id,
            ));
            assert(crate::query::opt_text_eq(
                pairs@[m].1,
                author_insert_of(parsed.comments@[m]).worldanvil_id,
            ));
        }
        assert(authors_upserted(s2, s3, parsed.comments@, pairs@));
    }
    let inserts = eligible_comments(&parsed.comments, &pairs, task.user_id, task.article_id);
    proof {
        lemma_eligible_len(parsed.comments@, pairs@, task.user_id, task.article_id);
        assert(store.next_id + inserts@.len() <= i64::MAX);
    }
    match insert_comments(store, task.article_id, task.user_id, inserts) {
        Ok(_) => {},
        Err(_) => {
            proof {
                assert(false);
            }
            return Err(StoreError::Full);
        },
    }
    proof {
        assert(inner_reconciled(pre, *store, *task, parsed)) by {
            assert(content_upsert_post(pre, s1, task.article_id, parsed.worldanvil_id@, parsed.title@)
                && comments_deleted(s1, s2, task.article_id, task.user_id) && authors_upserted(
                s2,
                s3,
                parsed.comments@,
                pairs@,
            ) && insert_comments_post(
                s3,
                *store,
                task.article_id,
                task.user_id,
                spec_eligible(parsed.comments@, pairs@, task.user_id, task.article_id),
            ));
        }
        assert(article_matches(raw, parsed));
        assert(inner_success_for(pre, *store, *task, raw));
    }
    Ok(TaskOutcome::Completed)
}

// ---------------------------------------------------------------------------
// One cycle: selection, fetch hand-off, and finalization.
// ---------------------------------------------------------------------------

/// A locked user, its locked task, and the article URL the driver must
/// fetch before the cycle can finish.
pub struct CycleSelection {
    pub user: UserQueue,
    pub task: ArticleQueueEntry,
    pub url: String,
}

/// How a cycle's selection phase ended. `Fetch` hands the driver the URL to
/// fetch; the other outcomes end the cycle with every lock released.
pub enum CycleStep {
    NoUser,
    NoTasks,
    MissingArticle,
    Fetch(CycleSelection),
}

/// What the driver's fetch produced: the page body, or a network failure's
/// description.
pub enum FetchOutcome {
    Page(String),
    FetchFailed(String),
}

/// The two stores hold the same rows; only the backing vectors may differ.
pub open spec fn stores_equiv(a: Store, b: Store) -> bool {
    &&& b.wa_users@ == a.wa_users@
    &&& b.users@ == a.users@
    &&& b.worlds@ == a.worlds@
    &&& b.articles@ == a.articles@
    &&& b.contents@ == a.contents@
    &&& b.comments@ == a.comments@
    &&& b.user_queue@ == a.user_queue@
    &&& b.tasks@ == a.tasks@
    &&& b.next_id == a.next_id
}

/// A user was selected but none of its pending tasks could be locked. With
/// no concurrent lock holders this cannot happen (see
/// [`lemma_no_tasks_unreachable`]); it is reported as a fatal internal
/// inconsistency, not recovered.
pub open spec fn selected_user_no_tasks(pre: Store, now: i64) -> bool {
    exists|mid: Store, u: UserQueue|
        {
            &&& #[trigger] next_user_post(pre, mid, now, Some(u))
            &&& (forall|i: int| !selectable_task_at(mid, i, u.user_id))
        }
}

/// A user and one of its tasks were selected and locked.
pub open spec fn selection_made(pre: Store, post: Store, now: i64, sel: CycleSelection) -> bool {
    exists|mid: Store|
        {
            &&& #[trigger] next_user_post(pre, mid, now, Some(sel.user))
            &&& next_task_post(mid, post, sel.user.user_id, Some(sel.task))
        }
}

/// The selection's URL is the stored URL of the task's article.
pub open spec fn selection_url_ok(post: Store, sel: CycleSelection) -> bool {
    exists|i: int|
        {
            &&& 0 <= i < post.articles@.len()
            &&& (#[trigger] post.articles@[i]).id == sel.task.article_id
            &&& post.articles@[i].user_id == sel.task.user_id
            &&& post.articles@[i].url@ == sel.url@
        }
}

/// A selection was made but the task's article row is gone.
pub open spec fn selection_dangling(pre: Store, now: i64) -> bool {
    exists|mid: Store, mid2: Store, u: UserQueue, t: ArticleQueueEntry|
        {
            &&& #[trigger] next_user_post(pre, mid, now, Some(u))
            &&& #[trigger] next_task_post(mid, mid2, u.user_id, Some(t))
            &&& (forall|i: int|
                0 <= i < mid2.articles@.len() ==> !((#[trigger] mid2.articles@[i]).id
                    == t.article_id && mid2.articles@[i].user_id == t.user_id))
        }
}

/// Full contract of [`update_task_begin`].
pub open spec fn begin_post(pre: Store, post: Store, now: i64, r: CycleStep) -> bool {
    match r {
        CycleStep::NoUser => post == pre && (forall|i: int| !eligible_user_at(pre, i, now)),
        CycleStep::NoTasks => stores_equiv(pre, post) && selected_user_no_tasks(pre, now),
        CycleStep::MissingArticle => stores_equiv(pre, post) && selection_dangling(pre, now),
        CycleStep::Fetch(sel) => selection_made(pre, post, now, sel) && selection_url_ok(
            post,
            sel,
        ),
    }
}

/// Begin one cycle: lock the least recently serviced eligible user and its
/// oldest pending task, and look the task's article up for its URL. On any
/// outcome but `Fetch`, every lock taken is released again.
pub fn update_task_begin(store: &mut Store, now: i64) -> (r: CycleStep)
    requires
        old(store).wf(),
    ensures
        final(store).wf(),
        begin_post(*old(store), *final(store), now, r),
{
    let ghost pre = *store;
    let user = match get_next_user(store, now) {
        Some(u) => u,
        None => {
            return CycleStep::NoUser;
        },
    };
    let ghost mid = *store;
    let task = match get_next_task(&user.user_id, store) {
        Some(t) => t,
        None => {
            release_user_lock(user.id, store);
            proof {
                lemma_user_lock_roundtrip(pre, mid, mid, *store, now, user);
                assert(selected_user_no_tasks(pre, now));
            }
            return CycleStep::NoTasks;
        },
    };
    let ghost mid2 = *store;
    let article = match get_article(store, task.article_id, task.user_id) {
        Ok(a) => a,
        Err(_) => {
            release_task_lock(task.id, store);
            let ghost mid3 = *store;
            release_user_lock(user.id, store);
            proof {
                lemma_task_lock_roundtrip(mid, mid2, mid3, user.user_id, task);
                lemma_user_lock_roundtrip(pre, mid, mid3, *store, now, user);
                assert(selection_dangling(pre, now));
            }
            return CycleStep::MissingArticle;
        },
    };
    let sel = CycleSelection { user, task, url: article.url };
    let r = CycleStep::Fetch(sel);
    proof {
        assert(r matches CycleStep::Fetch(s) && s.user == user && s.task == task);
        assert(selection_made(pre, *store, now, r->Fetch_0));
        assert(selection_url_ok(*store, r->Fetch_0));
    }
    r
}

/// Locking a user row, doing work that leaves the queue rows as they were,
/// and unlocking the row again restores every row.
proof fn lemma_user_lock_roundtrip(
    pre: Store,
    mid: Store,
    mid3: Store,
    post: Store,
    now: i64,
    u: UserQueue,
)
    requires
        pre.wf(),
        next_user_post(pre, mid, now, Some(u)),
        stores_equiv(mid, mid3),
        user_unlock_post(mid3, post, u.id),
    ensures
        stores_equiv(pre, post),
{
    let i = choose|i: int| crate::queue::user_selected_at(pre, mid, now, u, i);
    assert forall|j: int| 0 <= j < pre.user_queue@.len() implies post.user_queue@[j]
        == pre.user_queue@[j] by {
        assert(mid3.user_queue@[j] == mid.user_queue@[j]);
        if j == i {
            assert(mid.user_queue@[j] == (UserQueueRow { locked: true, ..pre.user_queue@[j] }));
            assert(mid3.user_queue@[j].queue.id == u.id);
            assert(post.user_queue@[j] == (UserQueueRow { locked: false, ..mid3.user_queue@[j] }));
            assert(!pre.user_queue@[j].locked);
        } else {
            assert(mid.user_queue@[j] == pre.user_queue@[j]);
            if pre.user_queue@[j].queue.id == u.id {
                assert(pre.user_queue@[i].queue.id == u.id);
                assert(pre.user_queue@[j].queue.id != pre.user_queue@[i].queue.id);
                assert(false);
            }
            assert(post.user_queue@[j] == mid3.user_queue@[j]);
        }
    }
    assert(post.user_queue@ =~= pre.user_queue@);
}

/// Locking a task row and unlocking it again restores every row.
proof fn lemma_task_lock_roundtrip(pre: Store, mid: Store, post: Store, uid: i64, t: ArticleQueueEntry)
    requires
        pre.wf(),
        next_task_post(pre, mid, uid, Some(t)),
        task_unlock_post(mid, post, t.id),
    ensures
        stores_equiv(pre, post),
{
    let i = choose|i: int| crate::queue::task_selected_at(pre, mid, uid, t, i);
    assert forall|j: int| 0 <= j < pre.tasks@.len() implies post.tasks@[j] == pre.tasks@[j] by {
        if j == i {
            assert(mid.tasks@[j] == (ArticleQueueRow { locked: true, ..pre.tasks@[j] }));
            assert(mid.tasks@[j].entry.id == t.id);
            assert(post.tasks@[j] == (ArticleQueueRow { locked: false, ..mid.tasks@[j] }));
            assert(!pre.tasks@[j].locked);
        } else {
            assert(mid.tasks@[j] == pre.tasks@[j]);
            if pre.tasks@[j].entry.id == t.id {
                assert(mid.tasks@[i].entry.id == t.id);
                assert(pre.tasks@[j].entry.id != pre.tasks@[i].entry.id);
                assert(false);
            }
            assert(post.tasks@[j] == mid.tasks@[j]);
        }
    }
    assert(post.tasks@ =~= pre.tasks@);
}

/// Both row locks of a selection are released; nothing else changed.
pub open spec fn locks_released(pre: Store, post: Store, user_qid: i64, task_id: i64) -> bool {
    &&& post.wa_users == pre.wa_users
    &&& post.users == pre.users
    &&& post.worlds == pre.worlds
    &&& post.articles == pre.articles
    &&& post.contents == pre.contents
    &&& post.comments == pre.comments
    &&& post.next_id == pre.next_id
    &&& post.user_queue@.len() == pre.user_queue@.len()
    &&& (forall|j: int|
        0 <= j < pre.user_queue@.len() && pre.user_queue@[j].queue.id != user_qid
            ==> post.user_queue@[j] == pre.user_queue@[j])
    &&& (forall|j: int|
        0 <= j < pre.user_queue@.len() && pre.user_queue@[j].queue.id == user_qid
            ==> post.user_queue@[j] == (UserQueueRow { locked: false, ..pre.user_queue@[j] }))
    &&& post.tasks@.len() == pre.tasks@.len()
    &&& (forall|j: int|
        0 <= j < pre.tasks@.len() && pre.tasks@[j].entry.id != task_id ==> post.tasks@[j]
            == pre.tasks@[j])
    &&& (forall|j: int|
        0 <= j < pre.tasks@.len() && pre.tasks@[j].entry.id == task_id ==> post.tasks@[j]
            == (ArticleQueueRow { locked: false, ..pre.tasks@[j] }))
}

/// Releasing the task lock and then the user lock releases both.
proof fn lemma_compose_unlocks(pre: Store, m1: Store, post: Store, user_qid: i64, task_id: i64)
    requires
        task_unlock_post(pre, m1, task_id),
        user_unlock_post(m1, post, user_qid),
    ensures
        locks_released(pre, post, user_qid, task_id),
{
    assert forall|j: int|
        0 <= j < pre.tasks@.len() && pre.tasks@[j].entry.id != task_id implies post.tasks@[j]
        == pre.tasks@[j] by {
        assert(m1.tasks@[j] == pre.tasks@[j]);
    }
    assert forall|j: int|
        0 <= j < pre.tasks@.len() && pre.tasks@[j].entry.id == task_id implies post.tasks@[j]
        == (ArticleQueueRow { locked: false, ..pre.tasks@[j] }) by {
        assert(m1.tasks@[j] == (ArticleQueueRow { locked: false, ..pre.tasks@[j] }));
    }
    assert forall|j: int|
        0 <= j < pre.user_queue@.len() && pre.user_queue@[j].queue.id != user_qid implies
        post.user_queue@[j] == pre.user_queue@[j] by {
        assert(m1.user_queue@[j] == pre.user_queue@[j]);
    }
    assert forall|j: int|
        0 <= j < pre.user_queue@.len() && pre.user_queue@[j].queue.id == user_qid implies
        post.user_queue@[j] == (UserQueueRow { locked: false, ..pre.user_queue@[j] }) by {
        assert(m1.user_queue@[j] == pre.user_queue@[j]);
    }
}

/// The domain-error finalization: the task completed with the message
/// recorded, the user's cooldown restarted, the locks released.
pub open spec fn domain_error_post(pre: Store, post: Store, sel: CycleSelection, now: i64, msg: Seq<char>) -> bool {
    exists|s1: Store, s2: Store|
        {
            &&& #[trigger] complete_task_post(pre, s1, sel.task.id, Some(msg))
            &&& #[trigger] touched_post(s1, s2, sel.user.id, now)
            &&& locks_released(s2, post, sel.user.id, sel.task.id)
        }
}

/// The success finalization: the page's own parsed article reconciled, the
/// article stamped as checked, the task completed without error, the
/// cooldown restarted, the locks released.
pub open spec fn success_post(pre: Store, post: Store, sel: CycleSelection, now: i64, raw: RawPage) -> bool {
    exists|s1: Store, s2: Store, s3: Store, s4: Store|
        {
            &&& #[trigger] inner_success_for(pre, s1, sel.task, raw)
            &&& #[trigger] checked_post(s1, s2, sel.task.user_id, sel.task.article_id, now)
            &&& #[trigger] complete_task_post(s2, s3, sel.task.id, None)
            &&& #[trigger] touched_post(s3, s4, sel.user.id, now)
            &&& locks_released(s4, post, sel.user.id, sel.task.id)
        }
}

/// The system-error finalization: only the two row locks are released, so
/// the task stays pending and the cooldown clock is untouched, and the
/// outcome is an unhandled error naming the selection.
pub open spec fn system_error_outcome(
    pre: Store,
    post: Store,
    sel: CycleSelection,
    r: TaskOutcome,
) -> bool {
    &&& r matches TaskOutcome::Error(te) && te.unhandled && te.task_id == sel.task.id
        && te.user_queue_id == sel.task.user_id
    &&& locks_released(pre, post, sel.user.id, sel.task.id)
}

/// Full contract of [`update_task`]: what the driver fetched determines the
/// outcome. A failed fetch is a system error, retried later. For a fetched
/// page: a page that parses is reconciled and completed (or, with the
/// identifier allocator exhausted, handled as a system error); a page that
/// does not parse has its first failure's message recorded terminally on
/// the task as a domain error. `NoUser` and `NoTasks` are never returned.
pub open spec fn update_task_post(
    pre: Store,
    post: Store,
    sel: CycleSelection,
    now: i64,
    r: TaskOutcome,
    fetched: FetchOutcome,
) -> bool {
    match fetched {
        FetchOutcome::FetchFailed(_) => system_error_outcome(pre, post, sel, r),
        FetchOutcome::Page(page) => {
            let raw = raw_page_of(page@);
            if page_ok(raw) {
                if cycle_capacity_ok(pre, raw) {
                    r is Completed && success_post(pre, post, sel, now, raw)
                } else {
                    system_error_outcome(pre, post, sel, r)
                }
            } else {
                &&& r matches TaskOutcome::Error(te) && !te.unhandled && te.task_id == sel.task.id
                    && te.user_queue_id == sel.task.user_id && domain_message_matches(
                    raw,
                    te.message@,
                ) && domain_error_post(pre, post, sel, now, te.message@)
            }
        },
    }
}

/// Finish one cycle for a selection, given what the driver's fetch
/// produced. Uses the inner reconciliation as the sub-transaction: on a
/// domain error or system error its changes are discarded (it leaves the
/// store untouched), and the queue bookkeeping is finalized per outcome.
pub fn update_task(sel: &CycleSelection, fetched: FetchOutcome, store: &mut Store, now: i64) -> (r:
    TaskOutcome)
    requires
        old(store).wf(),
    ensures
        final(store).wf(),
        update_task_post(*old(store), *final(store), *sel, now, r, fetched),
{
    let ghost pre = *store;
    let ghost fo = fetched;
    match fetched {
        FetchOutcome::FetchFailed(message) => {
            release_task_lock(sel.task.id, store);
            let ghost m1 = *store;
            release_user_lock(sel.user.id, store);
            proof {
                lemma_compose_unlocks(pre, m1, *store, sel.user.id, sel.task.id);
            }
            TaskOutcome::Error(
                TaskError {
                    unhandled: true,
                    message,
                    user_queue_id: sel.task.user_id,
                    task_id: sel.task.id,
                },
            )
        },
        FetchOutcome::Page(page) => {
            proof {
                assert(fo matches FetchOutcome::Page(p) && p == page);
            }
            match update_task_inner(&sel.task, page.as_str(), store) {
                Err(_) => {
                    release_task_lock(sel.task.id, store);
                    let ghost m1 = *store;
                    release_user_lock(sel.user.id, store);
                    proof {
                        lemma_compose_unlocks(pre, m1, *store, sel.user.id, sel.task.id);
                    }
                    TaskOutcome::Error(
                        TaskError {
                            unhandled: true,
                            message: "ran out of fresh row identifiers".to_owned(),
                            user_queue_id: sel.task.user_id,
                            task_id: sel.task.id,
                        },
                    )
                },
                Ok(TaskOutcome::Error(te)) => {
                    complete_task(sel.task.id, Some(te.message.as_str()), store);
                    let ghost s1 = *store;
                    update_user_queue(&sel.user.id, now, store);
                    let ghost s2 = *store;
                    release_task_lock(sel.task.id, store);
                    let ghost s3 = *store;
                    release_user_lock(sel.user.id, store);
                    proof {
                        lemma_compose_unlocks(s2, s3, *store, sel.user.id, sel.task.id);
                        assert(complete_task_post(pre, s1, sel.task.id, Some(te.message@)));
                        assert(domain_error_post(pre, *store, *sel, now, te.message@));
                    }
                    TaskOutcome::Error(te)
                },
                Ok(TaskOutcome::Completed) => {
                    let ghost raw = raw_page_of(page@);
                    let ghost s1 = *store;
                    set_article_checked_time(&sel.task.user_id, &sel.task.article_id, now, store);
                    let ghost s2 = *store;
                    complete_task(sel.task.id, None, store);
                    let ghost s3 = *store;
                    update_user_queue(&sel.user.id, now, store);
                    let ghost s4 = *store;
                    release_task_lock(sel.task.id, store);
                    let ghost s5 = *store;
                    release_user_lock(sel.user.id, store);
                    proof {
                        lemma_compose_unlocks(s4, s5, *store, sel.user.id, sel.task.id);
                        assert(success_post(pre, *store, *sel, now, raw));
                    }
                    TaskOutcome::Completed
                },
                Ok(out) => {
                    proof {
                        assert(false);
                    }
                    out
                },
            }
        },
    }
}

// ---------------------------------------------------------------------------
// Laws of the cycle.
// ---------------------------------------------------------------------------

/// With no concurrent lock holders, a selected user always has a lockable
/// task: the `NoTasks` outcome is unreachable.
pub proof fn lemma_no_tasks_unreachable(pre: Store, now: i64)
    requires
        pre.wf(),
        forall|j: int| 0 <= j < pre.tasks@.len() ==> !(#[trigger] pre.tasks@[j]).locked,
    ensures
        !selected_user_no_tasks(pre, now),
{
    if selected_user_no_tasks(pre, now) {
        let (mid, u) = choose|mid: Store, u: UserQueue|
            {
                &&& #[trigger] next_user_post(pre, mid, now, Some(u))
                &&& (forall|i: int| !selectable_task_at(mid, i, u.user_id))
            };
        let i = choose|i: int| crate::queue::user_selected_at(pre, mid, now, u, i);
        assert(crate::queue::user_has_pending(pre.tasks@, u.user_id));
        let j = choose|j: int|
            0 <= j < pre.tasks@.len() && crate::queue::pending_task_for(
                #[trigger] pre.tasks@[j],
                u.user_id,
            );
        assert(mid.tasks@ == pre.tasks@);
        assert(selectable_task_at(mid, j, u.user_id));
        assert(false);
    }
}

/// System-error retry: after a cycle that failed with a system error, the
/// task row is unchanged but unlocked — still pending — and its user is
/// again eligible once the cooldown allows, so a later cycle picks the
/// same work up again.
pub proof fn lemma_system_error_retry(
    pre: Store,
    post: Store,
    sel: CycleSelection,
    j: int,
    u: int,
    now2: i64,
)
    requires
        pre.wf(),
        locks_released(pre, post, sel.user.id, sel.task.id),
        0 <= j < pre.tasks@.len(),
        pre.tasks@[j].entry.id == sel.task.id,
        !pre.tasks@[j].done,
        0 <= u < pre.user_queue@.len(),
        pre.user_queue@[u].queue.user_id == pre.tasks@[j].entry.user_id,
        !pre.user_queue@[u].locked || pre.user_queue@[u].queue.id == sel.user.id,
        pre.user_queue@[u].queue.last_updated + crate::queue::COOLDOWN_SECONDS < now2,
    ensures
        !post.tasks@[j].done,
        post.tasks@[j].entry == pre.tasks@[j].entry,
        eligible_user_at(post, u, now2),
{
    if pre.tasks@[j].entry.id == sel.task.id {
        assert(post.tasks@[j] == (ArticleQueueRow { locked: false, ..pre.tasks@[j] }));
    }
    if pre.user_queue@[u].queue.id == sel.user.id {
        assert(post.user_queue@[u] == (UserQueueRow { locked: false, ..pre.user_queue@[u] }));
    } else {
        assert(post.user_queue@[u] == pre.user_queue@[u]);
    }
    assert(crate::queue::pending_task_for(post.tasks@[j], post.user_queue@[u].queue.user_id));
    assert(crate::queue::user_has_pending(post.tasks@, post.user_queue@[u].queue.user_id));
}

/// Domain-error terminality: after a cycle that recorded a domain error,
/// every row of the task is done with the error flag and message stored,
/// and no later task selection ever returns that task again.
pub proof fn lemma_domain_error_terminal(
    pre: Store,
    post: Store,
    sel: CycleSelection,
    now: i64,
    msg: Seq<char>,
    j: int,
)
    requires
        pre.wf(),
        domain_error_post(pre, post, sel, now, msg),
        0 <= j < pre.tasks@.len(),
        pre.tasks@[j].entry.id == sel.task.id,
    ensures
        post.tasks@.len() == pre.tasks@.len(),
        post.tasks@[j].done,
        post.tasks@[j].error == Some(true),
        post.tasks@[j].error_msg matches Some(m) && m@ == msg,
        forall|post2: Store, uid: i64, r: Option<ArticleQueueEntry>|
            #[trigger] next_task_post(post, post2, uid, r) && r is Some ==> r->0.id
                != sel.task.id,
{
    let (s1, s2) = choose|s1: Store, s2: Store|
        {
            &&& #[trigger] complete_task_post(pre, s1, sel.task.id, Some(msg))
            &&& #[trigger] touched_post(s1, s2, sel.user.id, now)
            &&& locks_released(s2, post, sel.user.id, sel.task.id)
        };
    assert(crate::queue::completed_row(pre.tasks@[j], Some(msg), s1.tasks@[j]));
    assert(s2.tasks@ == s1.tasks@);
    assert forall|m: int|
        0 <= m < post.tasks@.len() && post.tasks@[m].entry.id == sel.task.id implies
        post.tasks@[m].done by {
        assert(s2.tasks@[m].entry == pre.tasks@[m].entry);
        if pre.tasks@[m].entry.id == sel.task.id {
            assert(crate::queue::completed_row(pre.tasks@[m], Some(msg), s1.tasks@[m]));
        } else {
            assert(s1.tasks@[m] == pre.tasks@[m]);
            assert(post.tasks@[m].entry.id != sel.task.id);
        }
    }
    assert(post.tasks@[j].done) by {
        assert(s2.tasks@[j].entry.id == sel.task.id);
        if s2.tasks@[j].entry.id == sel.task.id {
            assert(post.tasks@[j] == (ArticleQueueRow { locked: false, ..s2.tasks@[j] }));
        }
    }
    assert forall|post2: Store, uid: i64, r: Option<ArticleQueueEntry>|
        #[trigger] next_task_post(post, post2, uid, r) && r is Some implies r->0.id
        != sel.task.id by {
        let t = r->0;
        let i = choose|i: int| crate::queue::task_selected_at(post, post2, uid, t, i);
        assert(!post.tasks@[i].done);
        if t.id == sel.task.id {
            assert(post.tasks@[i].entry.id == sel.task.id);
            assert(post.tasks@[i].done);
        }
    }
}


/// No double-dequeue across cycles: two selection phases with no cycle
/// finished in between can never hand out the same task.
pub proof fn lemma_no_double_selection(
    s0: Store,
    s1: Store,
    s2: Store,
    now1: i64,
    now2: i64,
    sel1: CycleSelection,
    sel2: CycleSelection,
)
    requires
        s0.wf(),
        begin_post(s0, s1, now1, CycleStep::Fetch(sel1)),
        begin_post(s1, s2, now2, CycleStep::Fetch(sel2)),
    ensures
        sel1.task.id != sel2.task.id,
{
    let mid_a = choose|mid_a: Store|
        {
            &&& #[trigger] next_user_post(s0, mid_a, now1, Some(sel1.user))
            &&& next_task_post(mid_a, s1, sel1.user.user_id, Some(sel1.task))
        };
    let i = choose|i: int|
        crate::queue::task_selected_at(mid_a, s1, sel1.user.user_id, sel1.task, i);
    let mid_b = choose|mid_b: Store|
        {
            &&& #[trigger] next_user_post(s1, mid_b, now2, Some(sel2.user))
            &&& next_task_post(mid_b, s2, sel2.user.user_id, Some(sel2.task))
        };
    let ub = choose|ub: int| crate::queue::user_selected_at(s1, mid_b, now2, sel2.user, ub);
    let j = choose|j: int|
        crate::queue::task_selected_at(mid_b, s2, sel2.user.user_id, sel2.task, j);
    assert(mid_b.tasks@ == s1.tasks@);
    assert(s1.tasks@[i].locked);
    assert(!mid_b.tasks@[j].locked);
    assert(i != j);
    let ua = choose|ua: int| crate::queue::user_selected_at(s0, mid_a, now1, sel1.user, ua);
    assert(mid_a.tasks@ == s0.tasks@);
    assert forall|a: int| 0 <= a < s1.tasks@.len() implies #[trigger] s1.tasks@[a].entry
        == s0.tasks@[a].entry by {
        if a == i {
            assert(s1.tasks@[a] == (ArticleQueueRow { locked: true, ..mid_a.tasks@[a] }));
        } else {
            assert(s1.tasks@[a] == mid_a.tasks@[a]);
        }
    }
    assert(s1.tasks@[i].entry.id != s1.tasks@[j].entry.id) by {
        assert(s0.tasks@[i].entry.id != s0.tasks@[j].entry.id);
    }
}

/// After a successful cycle, no stale comment survives: every stored
/// comment of the re-synced (article, owner) pair carries an identifier
/// allocated during the cycle, so the stored set holds only rows written
/// by this scrape.
pub proof fn lemma_success_no_stale_comments(
    pre: Store,
    post: Store,
    sel: CycleSelection,
    now: i64,
    raw: RawPage,
)
    requires
        pre.wf(),
        success_post(pre, post, sel, now, raw),
    ensures
        forall|k: int|
            0 <= k < post.comments@.len() && (#[trigger] post.comments@[k]).article_id
                == sel.task.article_id && post.comments@[k].user_id == sel.task.user_id
                ==> post.comments@[k].id >= pre.next_id,
{
    let (s1, s2, s3, s4) = choose|s1: Store, s2: Store, s3: Store, s4: Store|
        {
            &&& #[trigger] inner_success_for(pre, s1, sel.task, raw)
            &&& #[trigger] checked_post(s1, s2, sel.task.user_id, sel.task.article_id, now)
            &&& #[trigger] complete_task_post(s2, s3, sel.task.id, None)
            &&& #[trigger] touched_post(s3, s4, sel.user.id, now)
            &&& locks_released(s4, post, sel.user.id, sel.task.id)
        };
    let parsed = choose|parsed: Article|
        #[trigger] article_matches(raw, parsed) && inner_reconciled(pre, s1, sel.task, parsed);
    let (m1, m2, m3, pairs) = choose|m1: Store, m2: Store, m3: Store, pairs: Seq<
        (i64, Option<String>),
    >|
        {
            &&& #[trigger] content_upsert_post(
                pre,
                m1,
                sel.task.article_id,
                parsed.worldanvil_id@,
                parsed.title@,
            )
            &&& #[trigger] comments_deleted(m1, m2, sel.task.article_id, sel.task.user_id)
            &&& #[trigger] authors_upserted(m2, m3, parsed.comments@, pairs)
            &&& #[trigger] insert_comments_post(
                m3,
                s1,
                sel.task.article_id,
                sel.task.user_id,
                spec_eligible(parsed.comments@, pairs, sel.task.user_id, sel.task.article_id),
            )
        };
    assert(post.comments@ == s1.comments@);
    assert(m2.comments@ == m3.comments@);
    let records = spec_eligible(parsed.comments@, pairs, sel.task.user_id, sel.task.article_id);
    assert forall|k: int|
        0 <= k < post.comments@.len() && (#[trigger] post.comments@[k]).article_id
            == sel.task.article_id && post.comments@[k].user_id == sel.task.user_id implies
        post.comments@[k].id >= pre.next_id by {
        if k < m3.comments@.len() {
            assert(s1.comments@[k] == m3.comments@[k]);
            let keep = (|c: crate::schema::Comment| !(c.article_id == sel.task.article_id
                && c.user_id == sel.task.user_id));
            assert(m2.comments@ == m1.comments@.filter(keep));
            m1.comments@.lemma_filter_pred(keep, k);
            assert(false);
        } else {
            assert(crate::comments::inserted_comment(
                (m3.next_id + (k - m3.comments@.len())) as i64,
                sel.task.article_id,
                sel.task.user_id,
                records[k - m3.comments@.len()],
                s1.comments@[k],
            ));
            assert(m3.next_id >= pre.next_id);
        }
    }
}

/// Comment replacement is exact on the canonical shape: of a scrape with
/// one unanswered comment with a resolved author, one answered comment,
/// and one unanswered comment whose author did not resolve, exactly the
/// first is persisted.
pub proof fn lemma_comment_replacement_exact(
    c1: RootComment,
    c2: RootComment,
    c3: RootComment,
    pairs: Seq<(i64, Option<String>)>,
    user_id: i64,
    article_id: i64,
    id1: i64,
)
    requires
        c1.replies@.len() == 0,
        pairs_lookup(pairs, c1.author_worldanvil_id@) == Some(id1),
        c2.replies@.len() > 0,
        c3.replies@.len() == 0,
        pairs_lookup(pairs, c3.author_worldanvil_id@) is None,
    ensures
        spec_eligible(seq![c1, c2, c3], pairs, user_id, article_id) == seq![
            spec_comment_insert(c1, id1, user_id, article_id),
        ],
{
    let s = seq![c1, c2, c3];
    assert(s.drop_last() =~= seq![c1, c2]);
    assert(seq![c1, c2].drop_last() =~= seq![c1]);
    assert(seq![c1].drop_last() =~= Seq::<RootComment>::empty());
    assert(seq![c1].last() == c1);
    assert(seq![c1, c2].last() == c2);
    assert(s.last() == c3);
    assert(spec_eligible(Seq::<RootComment>::empty(), pairs, user_id, article_id)
        =~= Seq::<CommentInsert>::empty());
    assert(spec_eligible(seq![c1], pairs, user_id, article_id) =~= seq![
        spec_comment_insert(c1, id1, user_id, article_id),
    ]);
    assert(spec_eligible(seq![c1, c2], pairs, user_id, article_id) == spec_eligible(
        seq![c1],
        pairs,
        user_id,
        article_id,
    ));
    assert(spec_eligible(s, pairs, user_id, article_id) == spec_eligible(
        seq![c1, c2],
        pairs,
        user_id,
        article_id,
    ));
}

} // verus!
