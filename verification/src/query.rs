//! Upserting comment authors observed in a scrape, deduplicated by their
//! external identifier, and the round-trip law that upserting the same
//! author twice keeps one row with an unchanged identifier.

use crate::schema::{WorldAnvilUser, WorldAnvilUserInsert};
use crate::store::{Store, StoreError, same_except_wa_users};
use crate::text::{clone_opt_string, str_eq};
use vstd::prelude::*;

verus! {

/// Author row `i` carries the non-null external identifier `w`.
pub open spec fn wa_id_at(users: Seq<WorldAnvilUser>, w: Seq<char>, i: int) -> bool {
    &&& 0 <= i < users.len()
    &&& users[i].worldanvil_id matches Some(x) && x@ == w
}

/// Some author row carries the non-null external identifier `w`.
pub open spec fn wa_id_present(users: Seq<WorldAnvilUser>, w: Seq<char>) -> bool {
    exists|i: int| wa_id_at(users, w, i)
}

/// The two optional strings hold the same text.
pub open spec fn opt_text_eq(a: Option<String>, b: Option<String>) -> bool {
    match (a, b) {
        (Some(x), Some(y)) => x@ == y@,
        (None, None) => true,
        _ => false,
    }
}

/// The author row carries the insert's external identifier, name and
/// avatar.
pub open spec fn wa_fields(u: WorldAnvilUser, id: i64, ins: WorldAnvilUserInsert) -> bool {
    &&& u.id == id
    &&& opt_text_eq(u.worldanvil_id, ins.worldanvil_id)
    &&& u.name@ == ins.name@
    &&& opt_text_eq(u.avatar_url, ins.avatar_url)
}

/// Author row `i` carried the insert's identifier and was refreshed in
/// place, keeping its internal identifier; every other row is unchanged.
pub open spec fn wa_updated_row_at(pre: Store, post: Store, ins: WorldAnvilUserInsert, id: i64, i: int) -> bool {
    &&& ins.worldanvil_id matches Some(w) && wa_id_at(pre.wa_users@, w@, i)
    &&& post.wa_users@.len() == pre.wa_users@.len()
    &&& (forall|j: int|
        0 <= j < pre.wa_users@.len() && j != i ==> post.wa_users@[j] == pre.wa_users@[j])
    &&& wa_fields(post.wa_users@[i], pre.wa_users@[i].id, ins)
    &&& id == pre.wa_users@[i].id
    &&& post.next_id == pre.next_id
}

/// Some author row was refreshed in place for this insert.
pub open spec fn wa_updated_row(pre: Store, post: Store, ins: WorldAnvilUserInsert, id: i64) -> bool {
    exists|i: int| wa_updated_row_at(pre, post, ins, id, i)
}

/// A fresh author row was appended for this insert.
pub open spec fn wa_inserted_row(pre: Store, post: Store, ins: WorldAnvilUserInsert, id: i64) -> bool {
    &&& post.wa_users@.len() == pre.wa_users@.len() + 1
    &&& (forall|j: int| 0 <= j < pre.wa_users@.len() ==> post.wa_users@[j] == pre.wa_users@[j])
    &&& wa_fields(post.wa_users@[pre.wa_users@.len() as int], pre.next_id, ins)
    &&& id == pre.next_id
    &&& post.next_id == pre.next_id + 1
}

/// Full contract of one author upsert: an insert with a known non-null
/// identifier refreshes that row; a new identifier, or a null one, appends
/// a fresh row.
pub open spec fn wa_upsert_post(pre: Store, post: Store, ins: WorldAnvilUserInsert, id: i64) -> bool {
    &&& same_except_wa_users(pre, post)
    &&& match ins.worldanvil_id {
        Some(w) => if wa_id_present(pre.wa_users@, w@) {
            wa_updated_row(pre, post, ins, id)
        } else {
            wa_inserted_row(pre, post, ins, id)
        },
        None => wa_inserted_row(pre, post, ins, id),
    }
}

/// Upsert one observed author: insert a new external identifier, update
/// display name and avatar for a known one. A record without an external
/// identifier always becomes a fresh row, as a null key never conflicts.
pub fn upsert_wa_user(store: &mut Store, ins: &WorldAnvilUserInsert) -> (r: Result<i64, StoreError>)
    requires
        old(store).wf(),
    ensures
        final(store).wf(),
        match r {
            Ok(id) => wa_upsert_post(*old(store), *final(store), *ins, id),
            Err(e) => e == StoreError::Full && *final(store) == *old(store) && old(store).next_id
                == i64::MAX,
        },
{
    let ghost pre = *store;
    match &ins.worldanvil_id {
        Some(w) => {
            let mut i: usize = 0;
            while i < store.wa_users.len()
                invariant
                    *store == pre,
                    pre == *old(store),
                    pre.wf(),
                    ins.worldanvil_id matches Some(x) && x == w,
                    i <= store.wa_users@.len(),
                    forall|k: int| 0 <= k < i ==> !wa_id_at(pre.wa_users@, w@, k),
                decreases store.wa_users@.len() - i,
            {
                let hit = match &store.wa_users[i].worldanvil_id {
                    Some(x) => str_eq(x.as_str(), w.as_str()),
                    None => false,
                };
                if hit {
                    store.wa_users[i].name = ins.name.clone();
                    store.wa_users[i].avatar_url = clone_opt_string(&ins.avatar_url);
                    let id = store.wa_users[i].id;
                    proof {
                        assert(wa_id_at(pre.wa_users@, w@, i as int));
                        assert(wa_updated_row_at(pre, *store, *ins, id, i as int));
                        assert forall|a: int| 0 <= a < store.wa_users@.len() implies 1
                            <= #[trigger] store.wa_users@[a].id < store.next_id by {
                            assert(store.wa_users@[a].id == pre.wa_users@[a].id);
                        }
                        assert forall|a: int, b: int| 0 <= a < b < store.wa_users@.len() implies
                            store.wa_users@[a].id != store.wa_users@[b].id by {
                            assert(store.wa_users@[a].id == pre.wa_users@[a].id);
                            assert(store.wa_users@[b].id == pre.wa_users@[b].id);
                        }
                        assert forall|a: int, b: int| 0 <= a < b < store.wa_users@.len() implies
                            !((#[trigger] store.wa_users@[a].worldanvil_id) matches Some(x)
                                && (#[trigger] store.wa_users@[b].worldanvil_id) matches Some(y)
                                && x@ == y@) by {
                            if a != i as int && b != i as int {
                                assert(store.wa_users@[a] == pre.wa_users@[a]);
                                assert(store.wa_users@[b] == pre.wa_users@[b]);
                            } else if a == i as int {
                                assert(store.wa_users@[b] == pre.wa_users@[b]);
                                assert(opt_text_eq(
                                    store.wa_users@[a].worldanvil_id,
                                    pre.wa_users@[a].worldanvil_id,
                                ));
                            } else {
                                assert(store.wa_users@[a] == pre.wa_users@[a]);
                                assert(opt_text_eq(
                                    store.wa_users@[b].worldanvil_id,
                                    pre.wa_users@[b].worldanvil_id,
                                ));
                            }
                        }
                    }
                    return Ok(id);
                }
                i += 1;
            }
            if store.next_id == i64::MAX {
                return Err(StoreError::Full);
            }
            let id = store.next_id;
            store.next_id = store.next_id + 1;
            store.wa_users.push(WorldAnvilUser {
                id,
                worldanvil_id: Some(w.clone()),
                name: ins.name.clone(),
                avatar_url: clone_opt_string(&ins.avatar_url),
            });
            proof {
                assert(wa_inserted_row(pre, *store, *ins, id));
                assert forall|a: int, b: int| 0 <= a < b < store.wa_users@.len() implies
                    !((#[trigger] store.wa_users@[a].worldanvil_id) matches Some(x)
                        && (#[trigger] store.wa_users@[b].worldanvil_id) matches Some(y) && x@
                        == y@) by {
                    if b == pre.wa_users@.len() {
                        assert(!wa_id_at(pre.wa_users@, w@, a));
                    }
                }
            }
            Ok(id)
        },
        None => {
            if store.next_id == i64::MAX {
                return Err(StoreError::Full);
            }
            let id = store.next_id;
            store.next_id = store.next_id + 1;
            store.wa_users.push(WorldAnvilUser {
                id,
                worldanvil_id: None,
                name: ins.name.clone(),
                avatar_url: clone_opt_string(&ins.avatar_url),
            });
            proof {
                assert(wa_inserted_row(pre, *store, *ins, id));
            }
            Ok(id)
        },
    }
}

/// Each returned pair maps one input record, in order, to the internal
/// identifier its author row ended with, carrying the record's external
/// identifier text.
pub open spec fn wa_pair_mapped(post: Store, ins: WorldAnvilUserInsert, pair: (i64, Option<String>)) -> bool {
    exists|j: int|
        0 <= j < post.wa_users@.len() && (#[trigger] post.wa_users@[j]).id == pair.0 && opt_text_eq(
            post.wa_users@[j].worldanvil_id,
            ins.worldanvil_id,
        ) && opt_text_eq(pair.1, ins.worldanvil_id)
}

/// Everything one author batch guarantees, packaged so that laws can
/// relate several calls: every returned pair maps its record to a stored
/// row; rows never move or change identifier; a record whose identifier is
/// already stored keeps that row's identifier in its pair; the last record
/// of each identifier leaves its name and avatar stored; and a batch of
/// known identifiers grows nothing.
pub open spec fn wa_batch_post(
    pre: Store,
    post: Store,
    users: Seq<WorldAnvilUserInsert>,
    pairs: Seq<(i64, Option<String>)>,
) -> bool {
    &&& wa_rows_stable(pre, post)
    &&& ((forall|k: int| 0 <= k < users.len() ==> ins_known(pre, #[trigger] users[k]))
        ==> post.wa_users@.len() == pre.wa_users@.len())
    &&& pairs.len() == users.len()
    &&& (forall|k: int|
        0 <= k < users.len() ==> wa_pair_mapped(post, #[trigger] users[k], pairs[k]))
    &&& (forall|k: int|
        0 <= k < users.len() && ins_known(pre, #[trigger] users[k]) ==> wa_pair_keeps_id(
            pre,
            users[k],
            pairs[k],
        ))
    &&& (forall|k: int|
        0 <= k < users.len() && last_of_its_id(users, k) ==> wa_final_fields(
            post,
            #[trigger] users[k],
        ))
}

/// One upsert keeps every row of the original table in place, with its
/// internal identifier and its external identifier text.
proof fn lemma_wa_upsert_stable(
    pre: Store,
    before: Store,
    post: Store,
    ins: WorldAnvilUserInsert,
    id: i64,
)
    requires
        wa_rows_stable(pre, before),
        wa_upsert_post(before, post, ins, id),
    ensures
        wa_rows_stable(pre, post),
{
    assert forall|i: int| 0 <= i < pre.wa_users@.len() implies (#[trigger] post.wa_users@[i]).id
        == pre.wa_users@[i].id && opt_text_eq(
        post.wa_users@[i].worldanvil_id,
        pre.wa_users@[i].worldanvil_id,
    ) by {
        match ins.worldanvil_id {
            Some(w) => {
                if wa_id_present(before.wa_users@, w@) {
                    let j = choose|j: int| wa_updated_row_at(before, post, ins, id, j);
                    if i == j {
                        assert(wa_fields(post.wa_users@[i], before.wa_users@[i].id, ins));
                        assert(before.wa_users@[i].worldanvil_id matches Some(x) && x@ == w@);
                    } else {
                        assert(post.wa_users@[i] == before.wa_users@[i]);
                    }
                } else {
                    assert(post.wa_users@[i] == before.wa_users@[i]);
                }
            },
            None => {
                assert(post.wa_users@[i] == before.wa_users@[i]);
            },
        }
    }
}

/// The record names a non-null external identifier some row of `pre`
/// already carries.
pub open spec fn ins_known(pre: Store, ins: WorldAnvilUserInsert) -> bool {
    ins.worldanvil_id matches Some(w) && wa_id_present(pre.wa_users@, w@)
}

/// Every author row of `pre` survives in place: same position, same
/// internal identifier, same external identifier text.
pub open spec fn wa_rows_stable(pre: Store, post: Store) -> bool {
    &&& pre.wa_users@.len() <= post.wa_users@.len()
    &&& (forall|i: int|
        0 <= i < pre.wa_users@.len() ==> (#[trigger] post.wa_users@[i]).id == pre.wa_users@[i].id
            && opt_text_eq(post.wa_users@[i].worldanvil_id, pre.wa_users@[i].worldanvil_id))
}

/// The pair returned for a known external identifier carries the internal
/// identifier its row already had.
pub open spec fn wa_pair_keeps_id(
    pre: Store,
    ins: WorldAnvilUserInsert,
    pair: (i64, Option<String>),
) -> bool {
    exists|i: int|
        ins.worldanvil_id is Some && #[trigger] wa_id_at(pre.wa_users@, ins.worldanvil_id->0@, i)
            && pair.0 == pre.wa_users@[i].id
}

/// Some author row carries the record's external identifier, name and
/// avatar.
pub open spec fn wa_final_fields(post: Store, ins: WorldAnvilUserInsert) -> bool {
    exists|j: int|
        0 <= j < post.wa_users@.len() && opt_text_eq(
            (#[trigger] post.wa_users@[j]).worldanvil_id,
            ins.worldanvil_id,
        ) && post.wa_users@[j].name@ == ins.name@ && opt_text_eq(
            post.wa_users@[j].avatar_url,
            ins.avatar_url,
        )
}

/// Record `k` is the batch's last carrying its external identifier, so its
/// name and avatar win.
pub open spec fn last_of_its_id(users: Seq<WorldAnvilUserInsert>, k: int) -> bool {
    forall|m: int|
        k < m < users.len() ==> !opt_text_eq(
            (#[trigger] users[m]).worldanvil_id,
            users[k].worldanvil_id,
        )
}

/// Update or insert the observed authors in order (a later record with the
/// same external identifier wins for name and avatar), returning one
/// (internal identifier, external identifier) pair per record. Rows never
/// move or change their identifiers: a known external identifier keeps its
/// internal one, and only unknown identifiers (or null ones) grow the
/// table.
pub fn update_wa_users(store: &mut Store, users: Vec<WorldAnvilUserInsert>) -> (r: Result<
    Vec<(i64, Option<String>)>,
    StoreError,
>)
    requires
        old(store).wf(),
        old(store).next_id + users@.len() <= i64::MAX,
    ensures
        final(store).wf(),
        same_except_wa_users(*old(store), *final(store)),
        old(store).next_id <= final(store).next_id <= old(store).next_id + users@.len(),
        r is Ok,
        (r matches Ok(pairs) ==> wa_batch_post(*old(store), *final(store), users@, pairs@)),
{
    let ghost pre = *store;
    let mut out: Vec<(i64, Option<String>)> = Vec::new();
    let mut p: usize = 0;
    while p < users.len()
        invariant
            pre.wf(),
            store.wf(),
            p <= users@.len(),
            out@.len() == p,
            same_except_wa_users(pre, *store),
            pre.next_id + users@.len() <= i64::MAX,
            store.next_id <= pre.next_id + p,
            pre.next_id <= store.next_id,
            wa_rows_stable(pre, *store),
            (forall|k: int|
                0 <= k < users@.len() ==> ins_known(pre, #[trigger] users@[k]))
                ==> store.wa_users@.len() == pre.wa_users@.len(),
            forall|k: int|
                0 <= k < p ==> wa_pair_mapped(*store, #[trigger] users@[k], out@[k]),
            forall|k: int|
                0 <= k < p && ins_known(pre, #[trigger] users@[k]) ==> wa_pair_keeps_id(
                    pre,
                    users@[k],
                    out@[k],
                ),
            forall|k: int|
                0 <= k < p && (forall|m: int|
                    k < m < p ==> !opt_text_eq(
                        (#[trigger] users@[m]).worldanvil_id,
                        users@[k].worldanvil_id,
                    )) ==> wa_final_fields(*store, #[trigger] users@[k]),
        decreases users@.len() - p,
    {
        let ghost before = *store;
        let ghost prior_out = out@;
        let ins = &users[p];
        let id = match upsert_wa_user(store, ins) {
            Ok(id) => id,
            Err(_) => {
                proof {
                    assert(before.next_id == i64::MAX);
                    assert(false);
                }
                return Err(StoreError::Full);
            },
        };
        let pair = (id, clone_opt_string(&ins.worldanvil_id));
        out.push(pair);
        proof {
            let ghost post = *store;
            assert forall|k: int| 0 <= k < p + 1 implies wa_pair_mapped(
                post,
                #[trigger] users@[k],
                out@[k],
            ) by {
                if k == p as int {
                    assert(out@[k] == pair);
                    match users@[k].worldanvil_id {
                        Some(w) => {
                            if wa_id_present(before.wa_users@, w@) {
                                let j = choose|j: int|
                                    wa_updated_row_at(before, post, users@[k], id, j);
                                assert(post.wa_users@[j].id == id);
                                assert(opt_text_eq(
                                    post.wa_users@[j].worldanvil_id,
                                    users@[k].worldanvil_id,
                                ));
                            } else {
                                assert(post.wa_users@[before.wa_users@.len() as int].id == id);
                            }
                        },
                        None => {
                            assert(post.wa_users@[before.wa_users@.len() as int].id == id);
                        },
                    }
                } else {
                    assert(out@[k] == prior_out[k]);
                    assert(wa_pair_mapped(before, users@[k], prior_out[k]));
                    let j = choose|j: int|
                        0 <= j < before.wa_users@.len() && (#[trigger] before.wa_users@[j]).id
                            == prior_out[k].0 && opt_text_eq(
                            before.wa_users@[j].worldanvil_id,
                            users@[k].worldanvil_id,
                        ) && opt_text_eq(prior_out[k].1, users@[k].worldanvil_id);
                    if post.wa_users@.len() == before.wa_users@.len() + 1 {
                        assert(post.wa_users@[j] == before.wa_users@[j]);
                    } else {
                        let ghost i0 = choose|i0: int|
                            wa_updated_row_at(before, post, users@[p as int], id, i0);
                        if j == i0 {
                            assert(post.wa_users@[j].id == before.wa_users@[j].id);
                            assert(opt_text_eq(
                                post.wa_users@[j].worldanvil_id,
                                before.wa_users@[j].worldanvil_id,
                            ));
                        } else {
                            assert(post.wa_users@[j] == before.wa_users@[j]);
                        }
                    }
                }
            }
            lemma_wa_upsert_stable(pre, before, post, users@[p as int], id);
            if ins_known(pre, users@[p as int]) {
                let w = users@[p as int].worldanvil_id->0;
                let i = choose|i: int| wa_id_at(pre.wa_users@, w@, i);
                assert(wa_id_at(before.wa_users@, w@, i)) by {
                    assert(opt_text_eq(
                        before.wa_users@[i].worldanvil_id,
                        pre.wa_users@[i].worldanvil_id,
                    ));
                }
                assert(wa_id_present(before.wa_users@, w@));
                let j = choose|j: int| wa_updated_row_at(before, post, users@[p as int], id, j);
                if j != i {
                    assert(before.wa_users@[i].worldanvil_id matches Some(a) && a@ == w@);
                    assert(before.wa_users@[j].worldanvil_id matches Some(b) && b@ == w@);
                    assert(false);
                }
                assert(id == pre.wa_users@[i].id);
                assert(out@[p as int].0 == id);
                assert(wa_pair_keeps_id(pre, users@[p as int], out@[p as int]));
                assert(post.wa_users@.len() == before.wa_users@.len());
            }
            assert forall|k: int|
                0 <= k < p + 1 && ins_known(pre, #[trigger] users@[k]) implies wa_pair_keeps_id(
                pre,
                users@[k],
                out@[k],
            ) by {
                if k < p as int {
                    assert(out@[k] == prior_out[k]);
                    assert(wa_pair_keeps_id(pre, users@[k], prior_out[k]));
                }
            }
            assert forall|k: int|
                0 <= k < p + 1 && (forall|m: int|
                    k < m < p + 1 ==> !opt_text_eq(
                        (#[trigger] users@[m]).worldanvil_id,
                        users@[k].worldanvil_id,
                    )) implies wa_final_fields(post, #[trigger] users@[k]) by {
                if k == p as int {
                    match users@[k].worldanvil_id {
                        Some(w) => {
                            if wa_id_present(before.wa_users@, w@) {
                                let j = choose|j: int|
                                    wa_updated_row_at(before, post, users@[k], id, j);
                                assert(wa_fields(
                                    post.wa_users@[j],
                                    before.wa_users@[j].id,
                                    users@[k],
                                ));
                                assert(wa_final_fields(post, users@[k]));
                            } else {
                                assert(wa_fields(
                                    post.wa_users@[before.wa_users@.len() as int],
                                    before.next_id,
                                    users@[k],
                                ));
                                assert(wa_final_fields(post, users@[k]));
                            }
                        },
                        None => {
                            assert(wa_fields(
                                post.wa_users@[before.wa_users@.len() as int],
                                before.next_id,
                                users@[k],
                            ));
                            assert(wa_final_fields(post, users@[k]));
                        },
                    }
                } else {
                    assert(!opt_text_eq(
                        users@[p as int].worldanvil_id,
                        users@[k].worldanvil_id,
                    ));
                    assert(wa_final_fields(before, users@[k])) by {
                        assert forall|m: int| k < m < p implies !opt_text_eq(
                            (#[trigger] users@[m]).worldanvil_id,
                            users@[k].worldanvil_id,
                        ) by {}
                    }
                    let j = choose|j: int|
                        0 <= j < before.wa_users@.len() && opt_text_eq(
                            (#[trigger] before.wa_users@[j]).worldanvil_id,
                            users@[k].worldanvil_id,
                        ) && before.wa_users@[j].name@ == users@[k].name@ && opt_text_eq(
                            before.wa_users@[j].avatar_url,
                            users@[k].avatar_url,
                        );
                    match users@[p as int].worldanvil_id {
                        Some(w) => {
                            if wa_id_present(before.wa_users@, w@) {
                                let i0 = choose|i0: int|
                                    wa_updated_row_at(before, post, users@[p as int], id, i0);
                                if j == i0 {
                                    assert(before.wa_users@[j].worldanvil_id matches Some(x)
                                        && x@ == w@);
                                    assert(false);
                                }
                                assert(post.wa_users@[j] == before.wa_users@[j]);
                            } else {
                                assert(post.wa_users@[j] == before.wa_users@[j]);
                            }
                        },
                        None => {
                            assert(post.wa_users@[j] == before.wa_users@[j]);
                        },
                    }
                    assert(wa_final_fields(post, users@[k]));
                }
            }
            if forall|k: int| 0 <= k < users@.len() ==> ins_known(pre, #[trigger] users@[k]) {
                assert(ins_known(pre, users@[p as int]));
                assert(post.wa_users@.len() == pre.wa_users@.len());
            }
        }
        p += 1;
    }
    let r = Ok::<Vec<(i64, Option<String>)>, StoreError>(out);
    proof {
        assert(r->Ok_0@.len() == users@.len());
        assert forall|k: int|
            0 <= k < users@.len() && last_of_its_id(users@, k) implies wa_final_fields(
            *store,
            #[trigger] users@[k],
        ) by {
            assert forall|m: int| k < m < p implies !opt_text_eq(
                (#[trigger] users@[m]).worldanvil_id,
                users@[k].worldanvil_id,
            ) by {}
        }
        assert forall|k: int| 0 <= k < users@.len() implies wa_pair_mapped(
            *store,
            #[trigger] users@[k],
            r->Ok_0@[k],
        ) by {}
        assert forall|k: int|
            0 <= k < users@.len() && ins_known(pre, #[trigger] users@[k]) implies
            wa_pair_keeps_id(pre, users@[k], r->Ok_0@[k]) by {}
        assert(wa_batch_post(pre, *store, users@, r->Ok_0@));
    }
    r
}

/// Round trip at the batch level: upserting one author record with a
/// non-null external identifier twice yields the same internal identifier
/// from both calls, and the second call adds no row.
pub proof fn lemma_update_wa_users_round_trip(
    s0: Store,
    s1: Store,
    s2: Store,
    ins: WorldAnvilUserInsert,
    pairs1: Seq<(i64, Option<String>)>,
    pairs2: Seq<(i64, Option<String>)>,
)
    requires
        s1.wf(),
        ins.worldanvil_id is Some,
        wa_batch_post(s0, s1, seq![ins], pairs1),
        wa_batch_post(s1, s2, seq![ins], pairs2),
    ensures
        pairs2[0].0 == pairs1[0].0,
        s2.wa_users@.len() == s1.wa_users@.len(),
{
    let batch = seq![ins];
    assert(batch[0] == ins);
    assert(wa_pair_mapped(s1, batch[0], pairs1[0]));
    let j = choose|j: int|
        0 <= j < s1.wa_users@.len() && (#[trigger] s1.wa_users@[j]).id == pairs1[0].0
            && opt_text_eq(s1.wa_users@[j].worldanvil_id, ins.worldanvil_id) && opt_text_eq(
            pairs1[0].1,
            ins.worldanvil_id,
        );
    let w = ins.worldanvil_id->0;
    assert(wa_id_at(s1.wa_users@, w@, j));
    assert(ins_known(s1, ins));
    assert forall|k: int| 0 <= k < batch.len() implies ins_known(s1, #[trigger] batch[k]) by {
        assert(batch[k] == ins);
    }
    assert(s2.wa_users@.len() == s1.wa_users@.len());
    assert(wa_pair_keeps_id(s1, batch[0], pairs2[0]));
    let i = choose|i: int|
        batch[0].worldanvil_id is Some && #[trigger] wa_id_at(
            s1.wa_users@,
            batch[0].worldanvil_id->0@,
            i,
        ) && pairs2[0].0 == s1.wa_users@[i].id;
    if i != j {
        assert(s1.wa_users@[i].worldanvil_id matches Some(a) && a@ == w@);
        assert(s1.wa_users@[j].worldanvil_id matches Some(b) && b@ == w@);
        assert(false);
    }
    assert(pairs2[0].0 == s1.wa_users@[j].id);
}

/// Round trip: upserting the same author record twice (same non-null
/// external identifier, name and avatar) leaves the table with the same
/// number of rows and every row textually unchanged, and returns the same
/// internal identifier both times.
pub proof fn lemma_wa_upsert_round_trip(
    s0: Store,
    s1: Store,
    s2: Store,
    ins: WorldAnvilUserInsert,
    id1: i64,
    id2: i64,
)
    requires
        s0.wf(),
        ins.worldanvil_id is Some,
        wa_upsert_post(s0, s1, ins, id1),
        wa_upsert_post(s1, s2, ins, id2),
    ensures
        id2 == id1,
        s2.wa_users@.len() == s1.wa_users@.len(),
        forall|j: int|
            0 <= j < s1.wa_users@.len() ==> (#[trigger] s2.wa_users@[j]).id == s1.wa_users@[j].id
                && opt_text_eq(s2.wa_users@[j].worldanvil_id, s1.wa_users@[j].worldanvil_id)
                && s2.wa_users@[j].name@ == s1.wa_users@[j].name@ && opt_text_eq(
                s2.wa_users@[j].avatar_url,
                s1.wa_users@[j].avatar_url,
            ),
{
    let w = ins.worldanvil_id->0;
    if wa_id_present(s0.wa_users@, w@) {
        let i1 = choose|i1: int| wa_updated_row_at(s0, s1, ins, id1, i1);
        assert(wa_id_at(s1.wa_users@, w@, i1));
        assert(wa_id_present(s1.wa_users@, w@));
        let i2 = choose|i2: int| wa_updated_row_at(s1, s2, ins, id2, i2);
        assert(wa_id_at(s1.wa_users@, w@, i2));
        if i1 != i2 {
            assert(s1.wa_users@[i1].worldanvil_id matches Some(a) && a@ == w@);
            assert(s1.wa_users@[i2].worldanvil_id matches Some(b) && b@ == w@);
            assert(s1.wf()) by {
                assert(wa_upsert_post(s0, s1, ins, id1));
            }
            assert(false);
        }
        assert forall|j: int| 0 <= j < s1.wa_users@.len() implies (#[trigger] s2.wa_users@[j]).id
            == s1.wa_users@[j].id && opt_text_eq(
            s2.wa_users@[j].worldanvil_id,
            s1.wa_users@[j].worldanvil_id,
        ) && s2.wa_users@[j].name@ == s1.wa_users@[j].name@ && opt_text_eq(
            s2.wa_users@[j].avatar_url,
            s1.wa_users@[j].avatar_url,
        ) by {
            if j != i2 {
                assert(s2.wa_users@[j] == s1.wa_users@[j]);
            } else {
                assert(wa_fields(s1.wa_users@[i2], s0.wa_users@[i1].id, ins));
                assert(wa_fields(s2.wa_users@[i2], s1.wa_users@[i2].id, ins));
            }
        }
    } else {
        assert(wa_inserted_row(s0, s1, ins, id1));
        let n = s0.wa_users@.len() as int;
        assert(wa_fields(s1.wa_users@[n], s0.next_id, ins));
        assert(wa_id_at(s1.wa_users@, w@, n));
        assert(wa_id_present(s1.wa_users@, w@));
        let i2 = choose|i2: int| wa_updated_row_at(s1, s2, ins, id2, i2);
        assert(wa_id_at(s1.wa_users@, w@, i2));
        if i2 != n {
            assert(s1.wa_users@[i2] == s0.wa_users@[i2]);
            assert(wa_id_at(s0.wa_users@, w@, i2));
            assert(false);
        }
        assert(id2 == s1.wa_users@[n].id);
        assert(id1 == s0.next_id);
        assert forall|j: int| 0 <= j < s1.wa_users@.len() implies (#[trigger] s2.wa_users@[j]).id
            == s1.wa_users@[j].id && opt_text_eq(
            s2.wa_users@[j].worldanvil_id,
            s1.wa_users@[j].worldanvil_id,
        ) && s2.wa_users@[j].name@ == s1.wa_users@[j].name@ && opt_text_eq(
            s2.wa_users@[j].avatar_url,
            s1.wa_users@[j].avatar_url,
        ) by {
            if j != n {
                assert(s2.wa_users@[j] == s1.wa_users@[j]);
            } else {
                assert(wa_fields(s1.wa_users@[j], s0.next_id, ins));
                assert(wa_fields(s2.wa_users@[j], s1.wa_users@[j].id, ins));
            }
        }
    }
}

} // verus!
