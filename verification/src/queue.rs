//! The two-level durable queue: per-user fairness rows and per-user task
//! rows, selected under non-blocking row locks.
//!
//! Selection contracts are phrased through named post-state predicates
//! (`next_user_post`, `next_task_post`, ...) so that the scheduling laws at
//! the bottom of this file can relate several operations.

use crate::schema::{ArticleQueueEntry, UserQueue};
use crate::store::{
    ArticleQueueRow, Store, StoreError, UserQueueRow, same_except_tasks,
    same_except_tasks_and_alloc, same_except_user_queue,
};
use vstd::prelude::*;

verus! {

/// Seconds a user stays ineligible after being serviced.
pub const COOLDOWN_SECONDS: i64 = 2;

/// The task row belongs to the user and is still pending.
pub open spec fn pending_task_for(r: ArticleQueueRow, user_id: i64) -> bool {
    r.entry.user_id == user_id && !r.done
}

/// Some pending task exists for the user, locked or not.
pub open spec fn user_has_pending(tasks: Seq<ArticleQueueRow>, user_id: i64) -> bool {
    exists|i: int| 0 <= i < tasks.len() && pending_task_for(#[trigger] tasks[i], user_id)
}

/// Fairness-queue row `i` may be selected at time `now`: it is not locked,
/// its cooldown has expired, and its user has at least one pending task.
pub open spec fn eligible_user_at(st: Store, i: int, now: i64) -> bool {
    &&& 0 <= i < st.user_queue@.len()
    &&& !st.user_queue@[i].locked
    &&& st.user_queue@[i].queue.last_updated + COOLDOWN_SECONDS < now
    &&& user_has_pending(st.tasks@, st.user_queue@[i].queue.user_id)
}

/// `post` equals `pre` except that fairness-queue row `i` is locked.
pub open spec fn user_locked_at(pre: Store, post: Store, i: int) -> bool {
    &&& same_except_user_queue(pre, post)
    &&& post.user_queue@.len() == pre.user_queue@.len()
    &&& 0 <= i < pre.user_queue@.len()
    &&& (forall|j: int|
        0 <= j < pre.user_queue@.len() && j != i ==> post.user_queue@[j] == pre.user_queue@[j])
    &&& post.user_queue@[i] == (UserQueueRow { locked: true, ..pre.user_queue@[i] })
}

/// Row `i` was the selection: eligible, oldest among the eligible, returned
/// as `u`, and now locked.
pub open spec fn user_selected_at(pre: Store, post: Store, now: i64, u: UserQueue, i: int) -> bool {
    &&& eligible_user_at(pre, i, now)
    &&& u == pre.user_queue@[i].queue
    &&& (forall|j: int|
        eligible_user_at(pre, j, now) ==> u.last_updated
            <= pre.user_queue@[j].queue.last_updated)
    &&& user_locked_at(pre, post, i)
}

/// Full contract of [`get_next_user`]: `None` means no row was eligible and
/// nothing changed; `Some` means one eligible row with the oldest
/// `last_updated` was returned and locked.
pub open spec fn next_user_post(pre: Store, post: Store, now: i64, r: Option<UserQueue>) -> bool {
    match r {
        None => post == pre && (forall|i: int| !eligible_user_at(pre, i, now)),
        Some(u) => exists|i: int| user_selected_at(pre, post, now, u, i),
    }
}

/// Whether some pending task of this user exists.
pub fn user_has_pending_task(tasks: &Vec<ArticleQueueRow>, user_id: i64) -> (r: bool)
    ensures
        r == user_has_pending(tasks@, user_id),
{
    let mut i: usize = 0;
    while i < tasks.len()
        invariant
            i <= tasks@.len(),
            forall|k: int| 0 <= k < i ==> !pending_task_for(#[trigger] tasks@[k], user_id),
        decreases tasks@.len() - i,
    {
        if tasks[i].entry.user_id == user_id && !tasks[i].done {
            assert(pending_task_for(tasks@[i as int], user_id));
            return true;
        }
        i += 1;
    }
    false
}

/// Lock a user for work. It has to be a user whose cooldown has expired and
/// which has at least one task ready; among those, the least recently
/// serviced wins. Locked rows are skipped rather than waited on.
pub fn get_next_user(store: &mut Store, now: i64) -> (r: Option<UserQueue>)
    requires
        old(store).wf(),
    ensures
        final(store).wf(),
        next_user_post(*old(store), *final(store), now, r),
{
    let ghost pre = *store;
    let mut best: usize = 0;
    let mut found = false;
    let mut i: usize = 0;
    while i < store.user_queue.len()
        invariant
            *store == pre,
            i <= store.user_queue@.len(),
            !found ==> forall|k: int| 0 <= k < i ==> !eligible_user_at(pre, k, now),
            found ==> best < i && eligible_user_at(pre, best as int, now),
            found ==> forall|k: int|
                0 <= k < i && eligible_user_at(pre, k, now)
                    ==> pre.user_queue@[best as int].queue.last_updated
                    <= pre.user_queue@[k].queue.last_updated,
        decreases store.user_queue@.len() - i,
    {
        let locked = store.user_queue[i].locked;
        let last_updated = store.user_queue[i].queue.last_updated;
        let user_id = store.user_queue[i].queue.user_id;
        let cooled = match last_updated.checked_add(COOLDOWN_SECONDS) {
            Some(t) => t < now,
            None => false,
        };
        let elig = !locked && cooled && user_has_pending_task(&store.tasks, user_id);
        assert(elig == eligible_user_at(pre, i as int, now));
        if elig {
            if !found || last_updated < store.user_queue[best].queue.last_updated {
                best = i;
                found = true;
            }
        }
        i += 1;
    }
    if found {
        let mut row = store.user_queue[best];
        row.locked = true;
        store.user_queue[best] = row;
        let r = Some(row.queue);
        proof {
            assert forall|j: int| 0 <= j < store.user_queue@.len() implies store.user_queue@[j].queue
                == pre.user_queue@[j].queue by {}
            assert(r->0 == row.queue);
            assert(user_selected_at(pre, *store, now, row.queue, best as int));
            assert(exists|k: int| user_selected_at(pre, *store, now, row.queue, k));
        }
        r
    } else {
        proof {
            assert forall|k: int| !eligible_user_at(pre, k, now) by {
                if 0 <= k < pre.user_queue@.len() {
                    assert(!eligible_user_at(pre, k, now));
                }
            }
        }
        None
    }
}

/// The task row at `i` could be handed to a worker for this user: pending,
/// owned by the user, and not locked.
pub open spec fn selectable_task_at(st: Store, i: int, user_id: i64) -> bool {
    &&& 0 <= i < st.tasks@.len()
    &&& pending_task_for(st.tasks@[i], user_id)
    &&& !st.tasks@[i].locked
}

/// `post` equals `pre` except that task row `i` is locked.
pub open spec fn task_locked_at(pre: Store, post: Store, i: int) -> bool {
    &&& same_except_tasks(pre, post)
    &&& post.tasks@.len() == pre.tasks@.len()
    &&& 0 <= i < pre.tasks@.len()
    &&& (forall|j: int| 0 <= j < pre.tasks@.len() && j != i ==> post.tasks@[j] == pre.tasks@[j])
    &&& post.tasks@[i] == (ArticleQueueRow { locked: true, ..pre.tasks@[i] })
}

/// Task row `i` was the selection: selectable, lowest identifier (oldest
/// enqueued) among the selectable, returned as `t`, and now locked.
pub open spec fn task_selected_at(
    pre: Store,
    post: Store,
    user_id: i64,
    t: ArticleQueueEntry,
    i: int,
) -> bool {
    &&& selectable_task_at(pre, i, user_id)
    &&& t == pre.tasks@[i].entry
    &&& (forall|j: int| selectable_task_at(pre, j, user_id) ==> t.id <= pre.tasks@[j].entry.id)
    &&& task_locked_at(pre, post, i)
}

/// Full contract of [`get_next_task`]: `None` means no selectable task and
/// nothing changed; `Some` means the selectable task with the lowest
/// identifier was returned and locked.
pub open spec fn next_task_post(
    pre: Store,
    post: Store,
    user_id: i64,
    r: Option<ArticleQueueEntry>,
) -> bool {
    match r {
        None => post == pre && (forall|i: int| !selectable_task_at(pre, i, user_id)),
        Some(t) => exists|i: int| task_selected_at(pre, post, user_id, t, i),
    }
}

/// Get the next task from the task queue: the user's oldest-enqueued pending
/// task whose row is not already locked by another worker.
pub fn get_next_task(user_id: &i64, store: &mut Store) -> (r: Option<ArticleQueueEntry>)
    requires
        old(store).wf(),
    ensures
        final(store).wf(),
        next_task_post(*old(store), *final(store), *user_id, r),
{
    let ghost pre = *store;
    let uid = *user_id;
    let mut best: usize = 0;
    let mut found = false;
    let mut i: usize = 0;
    while i < store.tasks.len()
        invariant
            *store == pre,
            uid == *user_id,
            i <= store.tasks@.len(),
            !found ==> forall|k: int| 0 <= k < i ==> !selectable_task_at(pre, k, uid),
            found ==> best < i && selectable_task_at(pre, best as int, uid),
            found ==> forall|k: int|
                0 <= k < i && selectable_task_at(pre, k, uid) ==> pre.tasks@[best as int].entry.id
                    <= pre.tasks@[k].entry.id,
        decreases store.tasks@.len() - i,
    {
        let row_user = store.tasks[i].entry.user_id;
        let row_done = store.tasks[i].done;
        let row_locked = store.tasks[i].locked;
        let row_id = store.tasks[i].entry.id;
        let sel = row_user == uid && !row_done && !row_locked;
        assert(sel == selectable_task_at(pre, i as int, uid));
        if sel {
            if !found || row_id < store.tasks[best].entry.id {
                best = i;
                found = true;
            }
        }
        i += 1;
    }
    if found {
        let entry = store.tasks[best].entry;
        store.tasks[best].locked = true;
        let r = Some(entry);
        proof {
            assert(store.tasks@[best as int] == (ArticleQueueRow {
                locked: true,
                ..pre.tasks@[best as int]
            }));
            assert forall|j: int| 0 <= j < store.tasks@.len() implies store.tasks@[j].entry
                == pre.tasks@[j].entry by {}
            assert(r->0 == entry);
            assert(task_selected_at(pre, *store, uid, entry, best as int));
            assert(exists|k: int| task_selected_at(pre, *store, uid, entry, k));
        }
        r
    } else {
        proof {
            assert forall|k: int| !selectable_task_at(pre, k, uid) by {
                if 0 <= k < pre.tasks@.len() {
                    assert(!selectable_task_at(pre, k, uid));
                }
            }
        }
        None
    }
}

/// The view of an optional error message.
pub open spec fn opt_str_view(o: Option<&str>) -> Option<Seq<char>> {
    match o {
        Some(s) => Some(s@),
        None => None,
    }
}

/// How a task row looks after being completed with the given outcome.
pub open spec fn completed_row(r: ArticleQueueRow, err: Option<Seq<char>>, post_r: ArticleQueueRow) -> bool {
    &&& post_r.entry == r.entry
    &&& post_r.locked == r.locked
    &&& post_r.done == true
    &&& post_r.error == Some(err is Some)
    &&& match err {
        Some(m) => post_r.error_msg matches Some(s) && s@ == m,
        None => post_r.error_msg is None,
    }
}

/// Full contract of [`complete_task`]: the rows carrying `id` are marked
/// done with the outcome recorded; every other row is untouched.
pub open spec fn complete_task_post(pre: Store, post: Store, id: i64, err: Option<Seq<char>>) -> bool {
    &&& same_except_tasks(pre, post)
    &&& post.tasks@.len() == pre.tasks@.len()
    &&& (forall|j: int|
        0 <= j < pre.tasks@.len() && pre.tasks@[j].entry.id != id ==> post.tasks@[j]
            == pre.tasks@[j])
    &&& (forall|j: int|
        0 <= j < pre.tasks@.len() && pre.tasks@[j].entry.id == id ==> completed_row(
            pre.tasks@[j],
            err,
            post.tasks@[j],
        ))
}

/// Mark a task as done, recording an error message if one is given. An
/// error recorded here is a terminal outcome, not a retry trigger.
pub fn complete_task(id: i64, error: Option<&str>, store: &mut Store)
    requires
        old(store).wf(),
    ensures
        final(store).wf(),
        complete_task_post(*old(store), *final(store), id, opt_str_view(error)),
{
    let ghost pre = *store;
    let mut j: usize = 0;
    while j < store.tasks.len()
        invariant
            same_except_tasks(pre, *store),
            j <= store.tasks@.len(),
            store.tasks@.len() == pre.tasks@.len(),
            forall|k: int|
                0 <= k < pre.tasks@.len() && !(k < j && pre.tasks@[k].entry.id == id)
                    ==> store.tasks@[k] == pre.tasks@[k],
            forall|k: int|
                0 <= k < j && pre.tasks@[k].entry.id == id ==> completed_row(
                    pre.tasks@[k],
                    opt_str_view(error),
                    store.tasks@[k],
                ),
        decreases store.tasks@.len() - j,
    {
        if store.tasks[j].entry.id == id {
            store.tasks[j].done = true;
            store.tasks[j].error = Some(error.is_some());
            store.tasks[j].error_msg = match error {
                Some(m) => Some(m.to_owned()),
                None => None,
            };
        }
        j += 1;
    }
    proof {
        assert forall|k: int| 0 <= k < store.tasks@.len() implies 1
            <= #[trigger] store.tasks@[k].entry.id < store.next_id by {
            if pre.tasks@[k].entry.id == id {
                assert(completed_row(pre.tasks@[k], opt_str_view(error), store.tasks@[k]));
            } else {
                assert(store.tasks@[k] == pre.tasks@[k]);
            }
        }
        assert forall|k: int, m: int| 0 <= k < m < store.tasks@.len() implies
            store.tasks@[k].entry.id != store.tasks@[m].entry.id by {
            if pre.tasks@[k].entry.id == id {
                assert(completed_row(pre.tasks@[k], opt_str_view(error), store.tasks@[k]));
            } else {
                assert(store.tasks@[k] == pre.tasks@[k]);
            }
            if pre.tasks@[m].entry.id == id {
                assert(completed_row(pre.tasks@[m], opt_str_view(error), store.tasks@[m]));
            } else {
                assert(store.tasks@[m] == pre.tasks@[m]);
            }
        }
    }
}

/// How the fairness queue looks after the row carrying `id` is stamped with
/// time `t`.
pub open spec fn touched_post(pre: Store, post: Store, id: i64, t: i64) -> bool {
    &&& same_except_user_queue(pre, post)
    &&& post.user_queue@.len() == pre.user_queue@.len()
    &&& (forall|j: int|
        0 <= j < pre.user_queue@.len() && pre.user_queue@[j].queue.id != id ==> post.user_queue@[j]
            == pre.user_queue@[j])
    &&& (forall|j: int|
        0 <= j < pre.user_queue@.len() && pre.user_queue@[j].queue.id == id
            ==> post.user_queue@[j] == (UserQueueRow {
            queue: UserQueue { last_updated: t, ..pre.user_queue@[j].queue },
            locked: pre.user_queue@[j].locked,
        }))
}

/// Restart the user's cooldown: stamp the fairness row with the current
/// time. Called after a cycle ends, whatever its outcome was.
pub fn update_user_queue(id: &i64, now: i64, store: &mut Store)
    requires
        old(store).wf(),
    ensures
        final(store).wf(),
        touched_post(*old(store), *final(store), *id, now),
{
    update_user_queue_to(id, now, store)
}

/// Stamp the fairness row with an arbitrary time; used to backdate users.
pub fn update_user_queue_to(id: &i64, last_updated: i64, store: &mut Store)
    requires
        old(store).wf(),
    ensures
        final(store).wf(),
        touched_post(*old(store), *final(store), *id, last_updated),
{
    let ghost pre = *store;
    let the_id = *id;
    let mut j: usize = 0;
    while j < store.user_queue.len()
        invariant
            same_except_user_queue(pre, *store),
            j <= store.user_queue@.len(),
            store.user_queue@.len() == pre.user_queue@.len(),
            forall|k: int|
                0 <= k < pre.user_queue@.len() && !(k < j && pre.user_queue@[k].queue.id == the_id)
                    ==> store.user_queue@[k] == pre.user_queue@[k],
            forall|k: int|
                0 <= k < j && pre.user_queue@[k].queue.id == the_id ==> store.user_queue@[k]
                    == (UserQueueRow {
                    queue: UserQueue { last_updated, ..pre.user_queue@[k].queue },
                    locked: pre.user_queue@[k].locked,
                }),
            the_id == *id,
        decreases store.user_queue@.len() - j,
    {
        if store.user_queue[j].queue.id == the_id {
            store.user_queue[j].queue.last_updated = last_updated;
        }
        j += 1;
    }
    proof {
        assert forall|k: int| 0 <= k < store.user_queue@.len() implies store.user_queue@[k].queue.id
            == pre.user_queue@[k].queue.id by {}
    }
}

/// The shape of a freshly enqueued task row.
pub open spec fn new_task_row(id: i64, user_id: i64, article_id: i64) -> ArticleQueueRow {
    ArticleQueueRow {
        entry: ArticleQueueEntry { id, user_id, article_id },
        done: false,
        error: None,
        error_msg: None,
        locked: false,
    }
}

/// Full contract of [`insert_tasks`]: one fresh pending row per article, in
/// argument order, with consecutively allocated identifiers.
pub open spec fn insert_tasks_post(pre: Store, post: Store, user_id: i64, ids: Seq<i64>) -> bool {
    &&& same_except_tasks_and_alloc(pre, post)
    &&& post.next_id == pre.next_id + ids.len()
    &&& post.tasks@.len() == pre.tasks@.len() + ids.len()
    &&& (forall|j: int| 0 <= j < pre.tasks@.len() ==> post.tasks@[j] == pre.tasks@[j])
    &&& (forall|k: int|
        0 <= k < ids.len() ==> post.tasks@[pre.tasks@.len() + k] == new_task_row(
            (pre.next_id + k) as i64,
            user_id,
            ids[k],
        ))
}

/// Enqueue new pending tasks for the user, one per article identifier.
pub fn insert_tasks(user_id: &i64, article_ids: &[i64], store: &mut Store) -> (r: Result<
    (),
    StoreError,
>)
    requires
        old(store).wf(),
    ensures
        final(store).wf(),
        match r {
            Ok(_) => old(store).next_id + article_ids@.len() <= i64::MAX && insert_tasks_post(
                *old(store),
                *final(store),
                *user_id,
                article_ids@,
            ),
            Err(e) => e == StoreError::Full && *final(store) == *old(store) && old(store).next_id
                + article_ids@.len() > i64::MAX,
        },
{
    let ghost pre = *store;
    let uid = *user_id;
    let cap = (i64::MAX - store.next_id) as u64;
    if article_ids.len() as u64 > cap {
        return Err(StoreError::Full);
    }
    let mut k: usize = 0;
    while k < article_ids.len()
        invariant
            pre.wf(),
            uid == *user_id,
            k <= article_ids@.len(),
            pre.next_id + article_ids@.len() <= i64::MAX,
            store.next_id == pre.next_id + k,
            same_except_tasks_and_alloc(pre, *store),
            store.tasks@.len() == pre.tasks@.len() + k,
            forall|j: int| 0 <= j < pre.tasks@.len() ==> store.tasks@[j] == pre.tasks@[j],
            forall|m: int|
                0 <= m < k ==> store.tasks@[pre.tasks@.len() + m] == new_task_row(
                    (pre.next_id + m) as i64,
                    uid,
                    article_ids@[m],
                ),
        decreases article_ids@.len() - k,
    {
        let id = store.next_id;
        store.next_id = store.next_id + 1;
        store.tasks.push(ArticleQueueRow {
            entry: ArticleQueueEntry { id, user_id: uid, article_id: article_ids[k] },
            done: false,
            error: None,
            error_msg: None,
            locked: false,
        });
        k += 1;
    }
    proof {
        lemma_insert_tasks_wf(pre, *store, uid, article_ids@);
    }
    Ok(())
}

/// Freshly enqueued rows have fresh, mutually distinct identifiers, so the
/// table stays well formed.
proof fn lemma_insert_tasks_wf(pre: Store, post: Store, user_id: i64, ids: Seq<i64>)
    requires
        pre.wf(),
        pre.next_id + ids.len() <= i64::MAX,
        insert_tasks_post(pre, post, user_id, ids),
    ensures
        post.wf(),
{
    assert forall|i: int| 0 <= i < post.tasks@.len() implies 1 <= #[trigger] post.tasks@[i].entry.id
        < post.next_id by {
        if i >= pre.tasks@.len() {
            assert(post.tasks@[i] == new_task_row(
                (pre.next_id + (i - pre.tasks@.len())) as i64,
                user_id,
                ids[i - pre.tasks@.len()],
            ));
        }
    }
    assert forall|i: int, j: int| 0 <= i < j < post.tasks@.len() implies post.tasks@[i].entry.id
        != post.tasks@[j].entry.id by {
        if j >= pre.tasks@.len() {
            assert(post.tasks@[j] == new_task_row(
                (pre.next_id + (j - pre.tasks@.len())) as i64,
                user_id,
                ids[j - pre.tasks@.len()],
            ));
        }
        if i >= pre.tasks@.len() {
            assert(post.tasks@[i] == new_task_row(
                (pre.next_id + (i - pre.tasks@.len())) as i64,
                user_id,
                ids[i - pre.tasks@.len()],
            ));
        }
    }
}

/// A pending task for this (user, article) pair exists.
pub open spec fn pair_queued(tasks: Seq<ArticleQueueRow>, user_id: i64, article_id: i64) -> bool {
    exists|i: int|
        0 <= i < tasks.len() && (#[trigger] tasks[i]).entry.user_id == user_id
            && tasks[i].entry.article_id == article_id && !tasks[i].done
}

/// Return true if there is a pending task for the article; used to prevent
/// duplicate enqueueing from the presentation layer.
pub fn article_is_queued(user_id: &i64, article_id: &i64, store: &Store) -> (r: bool)
    ensures
        r == pair_queued(store.tasks@, *user_id, *article_id),
{
    let mut i: usize = 0;
    while i < store.tasks.len()
        invariant
            i <= store.tasks@.len(),
            forall|k: int|
                0 <= k < i ==> !((#[trigger] store.tasks@[k]).entry.user_id == *user_id
                    && store.tasks@[k].entry.article_id == *article_id && !store.tasks@[k].done),
        decreases store.tasks@.len() - i,
    {
        if store.tasks[i].entry.user_id == *user_id && store.tasks[i].entry.article_id
            == *article_id && !store.tasks[i].done {
            return true;
        }
        i += 1;
    }
    false
}

/// The number of pending rows in the task table.
pub open spec fn pending_count(tasks: Seq<ArticleQueueRow>) -> int
    decreases tasks.len(),
{
    if tasks.len() == 0 {
        0int
    } else {
        pending_count(tasks.drop_last()) + if !tasks.last().done {
            1int
        } else {
            0int
        }
    }
}

/// How many tasks are pending overall.
pub fn get_queue_length(store: &Store) -> (r: i64)
    requires
        store.wf(),
    ensures
        r == pending_count(store.tasks@),
{
    let mut count: i64 = 0;
    let mut i: usize = 0;
    proof {
        assert(store.tasks@.take(0) =~= Seq::<ArticleQueueRow>::empty());
    }
    while i < store.tasks.len()
        invariant
            store.wf(),
            i <= store.tasks@.len(),
            0 <= count <= i,
            count == pending_count(store.tasks@.take(i as int)),
        decreases store.tasks@.len() - i,
    {
        proof {
            assert(store.tasks@.take(i + 1).drop_last() =~= store.tasks@.take(i as int));
            assert(store.tasks@.take(i + 1).last() == store.tasks@[i as int]);
        }
        if !store.tasks[i].done {
            count = count + 1;
        }
        i += 1;
    }
    proof {
        assert(store.tasks@.take(store.tasks@.len() as int) =~= store.tasks@);
    }
    count
}


/// How the fairness queue looks after the row carrying `id` is unlocked.
pub open spec fn user_unlock_post(pre: Store, post: Store, id: i64) -> bool {
    &&& same_except_user_queue(pre, post)
    &&& post.user_queue@.len() == pre.user_queue@.len()
    &&& (forall|j: int|
        0 <= j < pre.user_queue@.len() && pre.user_queue@[j].queue.id != id ==> post.user_queue@[j]
            == pre.user_queue@[j])
    &&& (forall|j: int|
        0 <= j < pre.user_queue@.len() && pre.user_queue@[j].queue.id == id
            ==> post.user_queue@[j] == (UserQueueRow { locked: false, ..pre.user_queue@[j] }))
}

/// Release the fairness-queue row lock, as the end of the owning
/// transaction would.
pub fn release_user_lock(id: i64, store: &mut Store)
    requires
        old(store).wf(),
    ensures
        final(store).wf(),
        user_unlock_post(*old(store), *final(store), id),
{
    let ghost pre = *store;
    let mut j: usize = 0;
    while j < store.user_queue.len()
        invariant
            pre.wf(),
            j <= store.user_queue@.len(),
            same_except_user_queue(pre, *store),
            store.user_queue@.len() == pre.user_queue@.len(),
            forall|k: int|
                0 <= k < pre.user_queue@.len() && !(k < j && pre.user_queue@[k].queue.id == id)
                    ==> store.user_queue@[k] == pre.user_queue@[k],
            forall|k: int|
                0 <= k < j && pre.user_queue@[k].queue.id == id ==> store.user_queue@[k]
                    == (UserQueueRow { locked: false, ..pre.user_queue@[k] }),
        decreases store.user_queue@.len() - j,
    {
        if store.user_queue[j].queue.id == id {
            store.user_queue[j].locked = false;
        }
        j += 1;
    }
    proof {
        assert forall|k: int| 0 <= k < store.user_queue@.len() implies store.user_queue@[k].queue
            == pre.user_queue@[k].queue by {
            if pre.user_queue@[k].queue.id == id {
                assert(store.user_queue@[k] == (UserQueueRow {
                    locked: false,
                    ..pre.user_queue@[k]
                }));
            } else {
                assert(store.user_queue@[k] == pre.user_queue@[k]);
            }
        }
    }
}

/// How the task queue looks after the row carrying `id` is unlocked.
pub open spec fn task_unlock_post(pre: Store, post: Store, id: i64) -> bool {
    &&& same_except_tasks(pre, post)
    &&& post.tasks@.len() == pre.tasks@.len()
    &&& (forall|j: int|
        0 <= j < pre.tasks@.len() && pre.tasks@[j].entry.id != id ==> post.tasks@[j]
            == pre.tasks@[j])
    &&& (forall|j: int|
        0 <= j < pre.tasks@.len() && pre.tasks@[j].entry.id == id ==> post.tasks@[j]
            == (ArticleQueueRow { locked: false, ..pre.tasks@[j] }))
}

/// Release the task-row lock, as the end of the owning transaction would.
pub fn release_task_lock(id: i64, store: &mut Store)
    requires
        old(store).wf(),
    ensures
        final(store).wf(),
        task_unlock_post(*old(store), *final(store), id),
{
    let ghost pre = *store;
    let mut j: usize = 0;
    while j < store.tasks.len()
        invariant
            pre.wf(),
            j <= store.tasks@.len(),
            same_except_tasks(pre, *store),
            store.tasks@.len() == pre.tasks@.len(),
            forall|k: int|
                0 <= k < pre.tasks@.len() && !(k < j && pre.tasks@[k].entry.id == id)
                    ==> store.tasks@[k] == pre.tasks@[k],
            forall|k: int|
                0 <= k < j && pre.tasks@[k].entry.id == id ==> store.tasks@[k]
                    == (ArticleQueueRow { locked: false, ..pre.tasks@[k] }),
        decreases store.tasks@.len() - j,
    {
        if store.tasks[j].entry.id == id {
            store.tasks[j].locked = false;
        }
        j += 1;
    }
    proof {
        assert forall|k: int| 0 <= k < store.tasks@.len() implies store.tasks@[k].entry
            == pre.tasks@[k].entry by {
            if pre.tasks@[k].entry.id == id {
                assert(store.tasks@[k] == (ArticleQueueRow { locked: false, ..pre.tasks@[k] }));
            } else {
                assert(store.tasks@[k] == pre.tasks@[k]);
            }
        }
    }
}

// ---------------------------------------------------------------------------
// Scheduling laws.

// ---------------------------------------------------------------------------

/// No double-dequeue: two task selections with no release in between can
/// never hand out the same task, whatever user each asked for.
pub proof fn lemma_no_double_dequeue(
    pre: Store,
    mid: Store,
    post: Store,
    user_a: i64,
    user_b: i64,
    t_a: ArticleQueueEntry,
    t_b: ArticleQueueEntry,
)
    requires
        pre.wf(),
        next_task_post(pre, mid, user_a, Some(t_a)),
        next_task_post(mid, post, user_b, Some(t_b)),
    ensures
        t_a.id != t_b.id,
{
    let i = choose|i: int| task_selected_at(pre, mid, user_a, t_a, i);
    let j = choose|j: int| task_selected_at(mid, post, user_b, t_b, j);
    assert(mid.tasks@[i].locked);
    assert(!mid.tasks@[j].locked);
    assert(mid.tasks@[j] == pre.tasks@[j]);
    assert(i != j);
}

/// Fairness: with two eligible rows and the first strictly least recently
/// serviced, selection never returns the younger row's user entry, and if
/// those two are the only eligible rows it returns exactly the older one.
pub proof fn lemma_fairness(
    pre: Store,
    post: Store,
    now: i64,
    i: int,
    j: int,
    r: Option<UserQueue>,
)
    requires
        pre.wf(),
        eligible_user_at(pre, i, now),
        eligible_user_at(pre, j, now),
        pre.user_queue@[i].queue.last_updated < pre.user_queue@[j].queue.last_updated,
        next_user_post(pre, post, now, r),
    ensures
        r is Some,
        r->0.last_updated <= pre.user_queue@[i].queue.last_updated,
        r->0.last_updated < pre.user_queue@[j].queue.last_updated,
        (forall|k: int| eligible_user_at(pre, k, now) ==> k == i || k == j) ==> r == Some(
            pre.user_queue@[i].queue,
        ),
{
    match r {
        None => {
            assert(!eligible_user_at(pre, i, now));
        },
        Some(u) => {
            let k0 = choose|k0: int| user_selected_at(pre, post, now, u, k0);
            assert(u.last_updated <= pre.user_queue@[i].queue.last_updated);
            if forall|k: int| eligible_user_at(pre, k, now) ==> k == i || k == j {
                assert(k0 == i || k0 == j);
                assert(k0 == j ==> u.last_updated >= pre.user_queue@[j].queue.last_updated);
                assert(k0 == i);
            }
        },
    }
}

/// Cooldown: a user whose fairness row was stamped at time `t` can only be
/// selected at a time strictly later than `t` plus the cooldown.
pub proof fn lemma_cooldown(pre: Store, post: Store, now: i64, i: int, u: UserQueue)
    requires
        pre.wf(),
        0 <= i < pre.user_queue@.len(),
        next_user_post(pre, post, now, Some(u)),
        u == pre.user_queue@[i].queue,
    ensures
        u.last_updated + COOLDOWN_SECONDS < now,
{
    let k0 = choose|k0: int| user_selected_at(pre, post, now, u, k0);
    assert(eligible_user_at(pre, k0, now));
}

/// Domain-error terminality: once a task is completed (with or without a
/// recorded error), no later selection returns it, as long as its row stays
/// done.
pub proof fn lemma_completed_task_never_selected(
    pre: Store,
    post: Store,
    user_id: i64,
    id: i64,
    t: ArticleQueueEntry,
)
    requires
        pre.wf(),
        forall|j: int|
            0 <= j < pre.tasks@.len() && pre.tasks@[j].entry.id == id
                ==> pre.tasks@[j].done,
        next_task_post(pre, post, user_id, Some(t)),
    ensures
        t.id != id,
{
    let i = choose|i: int| task_selected_at(pre, post, user_id, t, i);
    assert(!pre.tasks@[i].done);
}

} // verus!
