//! Worlds owned by an account, kept in step with the vendor's listing.

use crate::schema::{World, WorldInsert};
use crate::store::{Store, StoreError, same_except_worlds};
use crate::text::str_eq;
use vstd::prelude::*;
use vstd::seq_lib::*;

verus! {

/// The predicate selecting the worlds of one owner.
pub open spec fn world_of(uid: i64) -> spec_fn(World) -> bool {
    |w: World| w.user_id == uid
}

/// All worlds of the user, in table order.
pub fn get_worlds(store: &Store, user_id: &i64) -> (r: Vec<World>)
    ensures
        r@ == store.worlds@.filter(world_of(*user_id)),
{
    let uid = *user_id;
    let mut r: Vec<World> = Vec::new();
    let mut i: usize = 0;
    proof {
        reveal(Seq::filter);
        assert(store.worlds@.take(0) =~= Seq::<World>::empty());
    }
    while i < store.worlds.len()
        invariant
            uid == *user_id,
            i <= store.worlds@.len(),
            r@ == store.worlds@.take(i as int).filter(world_of(uid)),
        decreases store.worlds@.len() - i,
    {
        proof {
            reveal(Seq::filter);
            assert(store.worlds@.take(i + 1).drop_last() =~= store.worlds@.take(i as int));
            assert(store.worlds@.take(i + 1).last() == store.worlds@[i as int]);
        }
        if store.worlds[i].user_id == uid {
            r.push(store.worlds[i].duplicate());
        }
        i += 1;
    }
    proof {
        assert(store.worlds@.take(store.worlds@.len() as int) =~= store.worlds@);
    }
    r
}

/// Look one world of the user up by its identifier.
pub fn get_world(store: &Store, user_id: &i64, world_id: &i64) -> (r: Result<World, StoreError>)
    ensures
        match r {
            Ok(w) => exists|i: int|
                0 <= i < store.worlds@.len() && w == store.worlds@[i] && w.id == *world_id
                    && w.user_id == *user_id,
            Err(e) => e == StoreError::NotFound && (forall|i: int|
                0 <= i < store.worlds@.len() ==> !((#[trigger] store.worlds@[i]).id == *world_id
                    && store.worlds@[i].user_id == *user_id)),
        },
{
    let mut i: usize = 0;
    while i < store.worlds.len()
        invariant
            i <= store.worlds@.len(),
            forall|k: int|
                0 <= k < i ==> !((#[trigger] store.worlds@[k]).id == *world_id
                    && store.worlds@[k].user_id == *user_id),
        decreases store.worlds@.len() - i,
    {
        if store.worlds[i].id == *world_id && store.worlds[i].user_id == *user_id {
            let row = store.worlds[i].duplicate();
            proof {
                assert(row == store.worlds@[i as int]);
            }
            return Ok(row);
        }
        i += 1;
    }
    Err(StoreError::NotFound)
}

/// The external identifiers of an insert batch, as character sequences.
pub open spec fn insert_ids(ws: Seq<WorldInsert>) -> Seq<Seq<char>> {
    Seq::new(ws.len(), |i: int| ws[i].worldanvil_id@)
}

/// The predicate selecting the rows that survive the delete pass: a row
/// stays when it belongs to another user, or when no identifier in the
/// batch differs from its own. (The delete statement it models removes
/// every world of the user whose identifier differs from *some* batch
/// entry.)
pub open spec fn world_keep_pred(uid: i64, ids: Seq<Seq<char>>) -> spec_fn(World) -> bool {
    |w: World| !(w.user_id == uid && exists|k: int| 0 <= k < ids.len() && ids[k] != w.worldanvil_id@)
}

/// Some row of `post` records the insert `ins` for owner `uid` under
/// identifier `id`.
pub open spec fn world_present(post: Store, uid: i64, ins: WorldInsert, id: i64) -> bool {
    exists|j: int| world_mapped(post, uid, ins, id, j)
}

/// Some row of `post` records the insert under `id`, carrying its name.
pub open spec fn world_present_named(post: Store, uid: i64, ins: WorldInsert, id: i64) -> bool {
    exists|j: int| world_mapped_named(post, uid, ins, id, j)
}

/// Entry `k` is the batch's last carrying its external identifier, so its
/// name wins.
pub open spec fn world_last_of_its_id(ws: Seq<WorldInsert>, k: int) -> bool {
    forall|m: int| k < m < ws.len() ==> (#[trigger] ws[m]).worldanvil_id@ != ws[k].worldanvil_id@
}

/// Row `j` of `post` records the insert `ins` for owner `uid` under
/// identifier `id`.
pub open spec fn world_mapped(post: Store, uid: i64, ins: WorldInsert, id: i64, j: int) -> bool {
    &&& 0 <= j < post.worlds@.len()
    &&& post.worlds@[j].id == id
    &&& post.worlds@[j].user_id == uid
    &&& post.worlds@[j].worldanvil_id@ == ins.worldanvil_id@
}

/// As [`world_mapped`], and the row carries the insert's name.
pub open spec fn world_mapped_named(post: Store, uid: i64, ins: WorldInsert, id: i64, j: int) -> bool {
    world_mapped(post, uid, ins, id, j) && post.worlds@[j].name@ == ins.name@
}

/// One row of `post` differs from `pre` (or was appended) and records the
/// insert; every other row is unchanged.
pub open spec fn world_upserted_at(
    pre: Store,
    post: Store,
    uid: i64,
    ins: WorldInsert,
    id: i64,
    j: int,
) -> bool {
    &&& world_mapped_named(post, uid, ins, id, j)
    &&& pre.worlds@.len() <= post.worlds@.len() <= pre.worlds@.len() + 1
    &&& (forall|m: int|
        0 <= m < post.worlds@.len() && m != j ==> m < pre.worlds@.len() && post.worlds@[m]
            == pre.worlds@[m])
    &&& (j < pre.worlds@.len() ==> post.worlds@.len() == pre.worlds@.len() && post.worlds@[j].id
        == pre.worlds@[j].id && pre.worlds@[j].user_id == uid && pre.worlds@[j].worldanvil_id@
        == ins.worldanvil_id@)
}

/// Update the first matching world row's name, or append a fresh row.
fn upsert_one_world(store: &mut Store, uid: i64, ins: &WorldInsert) -> (r: Result<i64, StoreError>)
    requires
        old(store).wf(),
    ensures
        final(store).wf(),
        match r {
            Ok(id) => {
                &&& same_except_worlds(*old(store), *final(store))
                &&& old(store).next_id <= final(store).next_id <= old(store).next_id + 1
                &&& exists|j: int|
                    world_upserted_at(*old(store), *final(store), uid, *ins, id, j)
            },
            Err(e) => e == StoreError::Full && *final(store) == *old(store) && old(store).next_id
                == i64::MAX,
        },
{
    let ghost pre = *store;
    let mut i: usize = 0;
    while i < store.worlds.len()
        invariant
            *store == pre,
            pre == *old(store),
            pre.wf(),
            i <= store.worlds@.len(),
            forall|k: int|
                0 <= k < i ==> !((#[trigger] store.worlds@[k]).user_id == uid
                    && store.worlds@[k].worldanvil_id@ == ins.worldanvil_id@),
        decreases store.worlds@.len() - i,
    {
        if store.worlds[i].user_id == uid && str_eq(
            store.worlds[i].worldanvil_id.as_str(),
            ins.worldanvil_id.as_str(),
        ) {
            store.worlds[i].name = ins.name.clone();
            let id = store.worlds[i].id;
            let r = Ok::<i64, StoreError>(id);
            proof {
                assert(r->Ok_0 == id);
                assert(world_upserted_at(pre, *store, uid, *ins, id, i as int));
                assert(exists|j: int| world_upserted_at(pre, *store, uid, *ins, id, j));
            }
            return r;
        }
        i += 1;
    }
    if store.next_id == i64::MAX {
        return Err(StoreError::Full);
    }
    let id = store.next_id;
    store.next_id = store.next_id + 1;
    store.worlds.push(World {
        id,
        user_id: uid,
        worldanvil_id: ins.worldanvil_id.clone(),
        name: ins.name.clone(),
    });
    let r = Ok::<i64, StoreError>(id);
    proof {
        assert(r->Ok_0 == id);
        assert(world_upserted_at(pre, *store, uid, *ins, id, pre.worlds@.len() as int));
        assert(exists|j: int| world_upserted_at(pre, *store, uid, *ins, id, j));
    }
    r
}

/// Drop every world of the user whose external identifier differs from
/// some batch identifier, then upsert each batch entry in order, returning
/// the stored identifier of each. The delete statement mirrors the SQL it
/// models: a row is removed when its identifier differs from at least one
/// batch entry.
pub fn upsert_worlds(store: &mut Store, user_id: &i64, worlds: Vec<WorldInsert>) -> (r: Result<
    Vec<i64>,
    StoreError,
>)
    requires
        old(store).wf(),
        old(store).next_id + worlds@.len() <= i64::MAX,
    ensures
        final(store).wf(),
        same_except_worlds(*old(store), *final(store)),
        r is Ok,
        (r matches Ok(ids) ==> {
            &&& ids@.len() == worlds@.len()
            &&& (forall|k: int|
                0 <= k < worlds@.len() ==> world_present(
                    *final(store),
                    *user_id,
                    #[trigger] worlds@[k],
                    ids@[k],
                ))
            &&& (forall|k: int|
                0 <= k < worlds@.len() && world_last_of_its_id(worlds@, k)
                    ==> world_present_named(
                    *final(store),
                    *user_id,
                    #[trigger] worlds@[k],
                    ids@[k],
                ))
        }),
{
    let ghost pre = *store;
    let uid = *user_id;
    let ghost ids = insert_ids(worlds@);
    let mut kept: Vec<World> = Vec::new();
    let mut i: usize = 0;
    proof {
        reveal(Seq::filter);
        assert(store.worlds@.take(0) =~= Seq::<World>::empty());
    }
    while i < store.worlds.len()
        invariant
            *store == pre,
            pre.wf(),
            i <= store.worlds@.len(),
            worlds@.len() == ids.len(),
            forall|k: int| 0 <= k < ids.len() ==> ids[k] == worlds@[k].worldanvil_id@,
            kept@ == store.worlds@.take(i as int).filter(world_keep_pred(uid, ids)),
            forall|a: int| 0 <= a < kept@.len() ==> 1 <= (#[trigger] kept@[a]).id < pre.next_id,
        decreases store.worlds@.len() - i,
    {
        proof {
            reveal(Seq::filter);
            assert(store.worlds@.take(i + 1).drop_last() =~= store.worlds@.take(i as int));
            assert(store.worlds@.take(i + 1).last() == store.worlds@[i as int]);
        }
        let row_uid = store.worlds[i].user_id;
        let mut differs = false;
        let mut k: usize = 0;
        while k < worlds.len()
            invariant
                i < store.worlds@.len(),
                k <= worlds@.len(),
                worlds@.len() == ids.len(),
                forall|m: int| 0 <= m < ids.len() ==> ids[m] == worlds@[m].worldanvil_id@,
                differs == exists|m: int|
                    0 <= m < k && ids[m] != store.worlds@[i as int].worldanvil_id@,
            decreases worlds@.len() - k,
        {
            if !str_eq(worlds[k].worldanvil_id.as_str(), store.worlds[i].worldanvil_id.as_str()) {
                proof {
                    assert(ids[k as int] != store.worlds@[i as int].worldanvil_id@);
                }
                differs = true;
            }
            k += 1;
        }
        let delete = row_uid == uid && differs;
        proof {
            assert(delete == !world_keep_pred(uid, ids)(store.worlds@[i as int]));
        }
        if !delete {
            kept.push(store.worlds[i].duplicate());
        }
        i += 1;
    }
    proof {
        assert(store.worlds@.take(store.worlds@.len() as int) =~= store.worlds@);
        store.worlds@.lemma_filter_len(world_keep_pred(uid, ids));
    }
    store.worlds = kept;
    let mut out: Vec<i64> = Vec::new();
    let ghost mid = *store;
    let mut p: usize = 0;
    while p < worlds.len()
        invariant
            uid == *user_id,
            mid.wf(),
            store.wf(),
            p <= worlds@.len(),
            out@.len() == p,
            same_except_worlds(mid, *store),
            mid.next_id + worlds@.len() <= i64::MAX,
            store.next_id <= mid.next_id + p,
            forall|k: int|
                0 <= k < p ==> world_present(*store, uid, #[trigger] worlds@[k], out@[k]),
            forall|k: int|
                0 <= k < p && (forall|m: int|
                    k < m < p ==> (#[trigger] worlds@[m]).worldanvil_id@
                        != worlds@[k].worldanvil_id@) ==> world_present_named(
                    *store,
                    uid,
                    #[trigger] worlds@[k],
                    out@[k],
                ),
        decreases worlds@.len() - p,
    {
        let ghost before = *store;
        let ghost prior_out = out@;
        let id = match upsert_one_world(store, uid, &worlds[p]) {
            Ok(id) => id,
            Err(_) => {
                proof {
                    assert(before.next_id == i64::MAX);
                    assert(false);
                }
                return Err(StoreError::Full);
            },
        };
        out.push(id);
        proof {
            let j0 = choose|j0: int|
                world_upserted_at(before, *store, uid, worlds@[p as int], id, j0);
            assert forall|k: int| 0 <= k < p + 1 implies world_present(
                *store,
                uid,
                #[trigger] worlds@[k],
                out@[k],
            ) by {
                if k == p as int {
                    assert(out@[k] == id);
                    assert(world_mapped(*store, uid, worlds@[k], out@[k], j0));
                } else {
                    assert(out@[k] == prior_out[k]);
                    assert(world_present(before, uid, worlds@[k], prior_out[k]));
                    let jk = choose|jk: int|
                        world_mapped(before, uid, worlds@[k], prior_out[k], jk);
                    if jk == j0 {
                        assert(world_mapped(*store, uid, worlds@[k], out@[k], j0));
                    } else {
                        assert(store.worlds@[jk] == before.worlds@[jk]);
                        assert(world_mapped(*store, uid, worlds@[k], out@[k], jk));
                    }
                }
            }
            assert forall|k: int|
                0 <= k < p + 1 && (forall|m: int|
                    k < m < p + 1 ==> (#[trigger] worlds@[m]).worldanvil_id@
                        != worlds@[k].worldanvil_id@) implies world_present_named(
                *store,
                uid,
                #[trigger] worlds@[k],
                out@[k],
            ) by {
                if k == p as int {
                    assert(out@[k] == id);
                    assert(world_mapped_named(*store, uid, worlds@[k], out@[k], j0));
                } else {
                    assert(worlds@[p as int].worldanvil_id@ != worlds@[k].worldanvil_id@);
                    assert(out@[k] == prior_out[k]);
                    assert(world_present_named(before, uid, worlds@[k], prior_out[k])) by {
                        assert forall|m: int| k < m < p implies (#[trigger] worlds@[m]).worldanvil_id@
                            != worlds@[k].worldanvil_id@ by {}
                    }
                    let jk = choose|jk: int|
                        world_mapped_named(before, uid, worlds@[k], prior_out[k], jk);
                    if jk == j0 {
                        assert(store.worlds@[j0].worldanvil_id@ == worlds@[p as int].worldanvil_id@);
                        assert(before.worlds@[jk].worldanvil_id@ == worlds@[k].worldanvil_id@);
                        if j0 < before.worlds@.len() {
                            assert(before.worlds@[j0].worldanvil_id@
                                == worlds@[p as int].worldanvil_id@);
                            assert(false);
                        } else {
                            assert(false);
                        }
                    }
                    assert(store.worlds@[jk] == before.worlds@[jk]);
                    assert(world_mapped_named(*store, uid, worlds@[k], out@[k], jk));
                }
            }
        }
        p += 1;
    }
    proof {
        assert(same_except_worlds(pre, *store));
    }
    let r = Ok::<Vec<i64>, StoreError>(out);
    proof {
        assert(r->Ok_0 == out);
        assert forall|k: int| 0 <= k < worlds@.len() implies world_present(
            *store,
            *user_id,
            #[trigger] worlds@[k],
            r->Ok_0@[k],
        ) by {
            assert(world_present(*store, uid, worlds@[k], out@[k]));
        }
    }
    r
}

} // verus!
