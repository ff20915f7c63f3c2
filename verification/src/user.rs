//! Accounts of the service, upserted by their key.

use crate::schema::{CommentaterUser, UserQueue};
use crate::store::{Store, StoreError, UserQueueRow, same_except_users};
use crate::text::str_eq;
use vstd::prelude::*;

verus! {

/// Account row `i` carries this key.
pub open spec fn user_key_at(users: Seq<CommentaterUser>, key: Seq<char>, i: int) -> bool {
    0 <= i < users.len() && users[i].api_key@ == key
}

/// Some account carries this key.
pub open spec fn some_user_key(users: Seq<CommentaterUser>, key: Seq<char>) -> bool {
    exists|i: int| user_key_at(users, key, i)
}

/// The account's mutable columns match the given values.
pub open spec fn user_fields(
    u: CommentaterUser,
    id: i64,
    key: Seq<char>,
    name: Seq<char>,
    waid: Seq<char>,
    last_seen: i64,
) -> bool {
    &&& u.id == id
    &&& u.api_key@ == key
    &&& u.display_name matches Some(d) && d@ == name
    &&& u.worldanvil_id@ == waid
    &&& u.last_seen == last_seen
}

/// The account at `i` carried the key and was refreshed in place; `u` is
/// the row as stored afterwards.
pub open spec fn user_updated_at(
    pre: Store,
    post: Store,
    key: Seq<char>,
    name: Seq<char>,
    waid: Seq<char>,
    u: CommentaterUser,
    i: int,
) -> bool {
    &&& user_key_at(pre.users@, key, i)
    &&& post.users@.len() == pre.users@.len()
    &&& (forall|j: int| 0 <= j < pre.users@.len() && j != i ==> post.users@[j] == pre.users@[j])
    &&& user_fields(post.users@[i], pre.users@[i].id, key, name, waid, pre.users@[i].last_seen)
    &&& u == post.users@[i]
    &&& post.next_id == pre.next_id
}

/// Full contract of [`get_user_id_or_insert`]: refresh the row carrying the
/// key, or append a fresh one first seen `now`.
pub open spec fn user_upsert_post(
    pre: Store,
    post: Store,
    key: Seq<char>,
    name: Seq<char>,
    waid: Seq<char>,
    now: i64,
    u: CommentaterUser,
) -> bool {
    &&& same_except_users(pre, post)
    &&& if some_user_key(pre.users@, key) {
        exists|i: int| user_updated_at(pre, post, key, name, waid, u, i)
    } else {
        &&& post.users@.len() == pre.users@.len() + 1
        &&& (forall|j: int| 0 <= j < pre.users@.len() ==> post.users@[j] == pre.users@[j])
        &&& user_fields(post.users@[pre.users@.len() as int], pre.next_id, key, name, waid, now)
        &&& u == post.users@[pre.users@.len() as int]
        &&& post.next_id == pre.next_id + 1
    }
}

/// Find the account owning this key, updating its display name and external
/// identifier; insert it first seen `now` if the key is new. Returns the
/// stored row.
pub fn get_user_id_or_insert(
    store: &mut Store,
    api_key: &str,
    display_name: &str,
    worldanvil_id: &str,
    now: i64,
) -> (r: Result<CommentaterUser, StoreError>)
    requires
        old(store).wf(),
    ensures
        final(store).wf(),
        match r {
            Ok(u) => user_upsert_post(
                *old(store),
                *final(store),
                api_key@,
                display_name@,
                worldanvil_id@,
                now,
                u,
            ),
            Err(e) => e == StoreError::Full && *final(store) == *old(store) && old(store).next_id
                == i64::MAX && !some_user_key(old(store).users@, api_key@),
        },
{
    let ghost pre = *store;
    let mut i: usize = 0;
    while i < store.users.len()
        invariant
            *store == pre,
            pre == *old(store),
            pre.wf(),
            i <= store.users@.len(),
            forall|k: int| 0 <= k < i ==> !user_key_at(pre.users@, api_key@, k),
        decreases store.users@.len() - i,
    {
        if str_eq(store.users[i].api_key.as_str(), api_key) {
            store.users[i].display_name = Some(display_name.to_owned());
            store.users[i].worldanvil_id = worldanvil_id.to_owned();
            let row = store.users[i].duplicate();
            proof {
                assert(user_key_at(pre.users@, api_key@, i as int));
                assert(user_updated_at(
                    pre,
                    *store,
                    api_key@,
                    display_name@,
                    worldanvil_id@,
                    row,
                    i as int,
                ));
                assert forall|a: int, b: int| 0 <= a < b < store.users@.len() implies
                    store.users@[a].api_key@ != store.users@[b].api_key@ by {
                    assert(store.users@[a].api_key@ == pre.users@[a].api_key@);
                    assert(store.users@[b].api_key@ == pre.users@[b].api_key@);
                }
                assert forall|a: int| 0 <= a < store.users@.len() implies 1
                    <= #[trigger] store.users@[a].id < store.next_id by {
                    assert(store.users@[a].id == pre.users@[a].id);
                }
                assert forall|a: int, b: int| 0 <= a < b < store.users@.len() implies
                    store.users@[a].id != store.users@[b].id by {
                    assert(store.users@[a].id == pre.users@[a].id);
                    assert(store.users@[b].id == pre.users@[b].id);
                }
            }
            return Ok(row);
        }
        i += 1;
    }
    if store.next_id == i64::MAX {
        return Err(StoreError::Full);
    }
    let id = store.next_id;
    store.next_id = store.next_id + 1;
    let row = CommentaterUser {
        id,
        display_name: Some(display_name.to_owned()),
        worldanvil_id: worldanvil_id.to_owned(),
        last_seen: now,
        api_key: api_key.to_owned(),
    };
    store.users.push(row.duplicate());
    proof {
        assert forall|a: int, b: int| 0 <= a < b < store.users@.len() implies store.users@[a].api_key@
            != store.users@[b].api_key@ by {
            if b == pre.users@.len() {
                assert(!user_key_at(pre.users@, api_key@, a));
            }
        }
    }
    Ok(row)
}

/// Look an account up by its identifier.
pub fn get_user(store: &Store, user_id: &i64) -> (r: Result<CommentaterUser, StoreError>)
    ensures
        match r {
            Ok(u) => exists|i: int|
                0 <= i < store.users@.len() && u == store.users@[i] && u.id == *user_id,
            Err(e) => e == StoreError::NotFound && (forall|i: int|
                0 <= i < store.users@.len() ==> (#[trigger] store.users@[i]).id != *user_id),
        },
{
    let mut i: usize = 0;
    while i < store.users.len()
        invariant
            i <= store.users@.len(),
            forall|k: int| 0 <= k < i ==> (#[trigger] store.users@[k]).id != *user_id,
        decreases store.users@.len() - i,
    {
        if store.users[i].id == *user_id {
            let row = store.users[i].duplicate();
            proof {
                assert(row == store.users@[i as int]);
                assert(row.id == *user_id);
            }
            return Ok(row);
        }
        i += 1;
    }
    Err(StoreError::NotFound)
}

/// A fairness-queue row for this user exists.
pub open spec fn user_queued(rows: Seq<UserQueueRow>, user_id: i64) -> bool {
    exists|i: int| 0 <= i < rows.len() && (#[trigger] rows[i]).queue.user_id == user_id
}

/// Add the user to the fairness queue, stamped `now`, unless a row for it
/// already exists.
pub fn insert_user_queue(store: &mut Store, user_id: &i64, now: i64) -> (r: Result<
    (),
    StoreError,
>)
    requires
        old(store).wf(),
    ensures
        final(store).wf(),
        match r {
            Ok(_) => if user_queued(old(store).user_queue@, *user_id) {
                *final(store) == *old(store)
            } else {
                &&& final(store).wa_users == old(store).wa_users
                &&& final(store).users == old(store).users
                &&& final(store).worlds == old(store).worlds
                &&& final(store).articles == old(store).articles
                &&& final(store).contents == old(store).contents
                &&& final(store).comments == old(store).comments
                &&& final(store).tasks == old(store).tasks
                &&& final(store).next_id == old(store).next_id + 1
                &&& final(store).user_queue@.len() == old(store).user_queue@.len() + 1
                &&& (forall|j: int|
                    0 <= j < old(store).user_queue@.len() ==> final(store).user_queue@[j] == old(
                        store,
                    ).user_queue@[j])
                &&& final(store).user_queue@[old(store).user_queue@.len() as int]
                    == (UserQueueRow {
                    queue: UserQueue { id: old(store).next_id, user_id: *user_id, last_updated: now },
                    locked: false,
                })
            },
            Err(e) => e == StoreError::Full && *final(store) == *old(store) && old(store).next_id
                == i64::MAX && !user_queued(old(store).user_queue@, *user_id),
        },
{
    let ghost pre = *store;
    let mut i: usize = 0;
    while i < store.user_queue.len()
        invariant
            *store == pre,
            pre == *old(store),
            pre.wf(),
            i <= store.user_queue@.len(),
            forall|k: int|
                0 <= k < i ==> (#[trigger] store.user_queue@[k]).queue.user_id != *user_id,
        decreases store.user_queue@.len() - i,
    {
        if store.user_queue[i].queue.user_id == *user_id {
            proof {
                assert(user_queued(pre.user_queue@, *user_id));
            }
            return Ok(());
        }
        i += 1;
    }
    if store.next_id == i64::MAX {
        return Err(StoreError::Full);
    }
    let id = store.next_id;
    store.next_id = store.next_id + 1;
    store.user_queue.push(UserQueueRow {
        queue: UserQueue { id, user_id: *user_id, last_updated: now },
        locked: false,
    });
    Ok(())
}

} // verus!
