//! Articles under watch, their content records, and the queries the
//! enqueue workflow runs over them.

use crate::schema::{Article, ArticleAndStatus, ArticleContent, ArticleDetails, ArticleStatus};
use crate::store::{
    ArticleQueueRow, Store, StoreError, same_except_articles, same_except_contents,
};
use crate::text::str_eq;
use vstd::prelude::*;
use vstd::seq_lib::*;

verus! {

/// Article row `i` belongs to the user and carries this URL.
pub open spec fn article_url_at(articles: Seq<ArticleDetails>, uid: i64, url: Seq<char>, i: int) -> bool {
    0 <= i < articles.len() && articles[i].user_id == uid && articles[i].url@ == url
}

/// Some article row of the user carries this URL.
pub open spec fn article_url_present(articles: Seq<ArticleDetails>, uid: i64, url: Seq<char>) -> bool {
    exists|i: int| article_url_at(articles, uid, url, i)
}

/// Register one article for watching. A URL the user already watches is
/// not inserted again; as the statement it models returns no row then, the
/// caller sees that as a missing-row failure.
pub fn register_article(
    user_id: i64,
    world_id: i64,
    url: &str,
    store: &mut Store,
) -> (r: Result<i64, StoreError>)
    requires
        old(store).wf(),
    ensures
        final(store).wf(),
        match r {
            Ok(id) => {
                &&& !article_url_present(old(store).articles@, user_id, url@)
                &&& same_except_articles(*old(store), *final(store))
                &&& final(store).next_id == old(store).next_id + 1
                &&& id == old(store).next_id
                &&& final(store).articles@.len() == old(store).articles@.len() + 1
                &&& (forall|j: int|
                    0 <= j < old(store).articles@.len() ==> final(store).articles@[j] == old(
                        store,
                    ).articles@[j])
                &&& final(store).articles@.last().id == id
                &&& final(store).articles@.last().user_id == user_id
                &&& final(store).articles@.last().world_id == world_id
                &&& final(store).articles@.last().url@ == url@
                &&& final(store).articles@.last().last_checked is None
                &&& final(store).articles@.last().title@ == Seq::<char>::empty()
                &&& final(store).articles@.last().worldanvil_id is None
            },
            Err(e) => *final(store) == *old(store) && if e == StoreError::NotFound {
                article_url_present(old(store).articles@, user_id, url@)
            } else {
                e == StoreError::Full && old(store).next_id == i64::MAX && !article_url_present(
                    old(store).articles@,
                    user_id,
                    url@,
                )
            },
        },
{
    let ghost pre = *store;
    let mut i: usize = 0;
    while i < store.articles.len()
        invariant
            *store == pre,
            pre == *old(store),
            pre.wf(),
            i <= store.articles@.len(),
            forall|k: int| 0 <= k < i ==> !article_url_at(pre.articles@, user_id, url@, k),
        decreases store.articles@.len() - i,
    {
        if store.articles[i].user_id == user_id && str_eq(store.articles[i].url.as_str(), url) {
            proof {
                assert(article_url_at(pre.articles@, user_id, url@, i as int));
            }
            return Err(StoreError::NotFound);
        }
        i += 1;
    }
    if store.next_id == i64::MAX {
        return Err(StoreError::Full);
    }
    let id = store.next_id;
    store.next_id = store.next_id + 1;
    store.articles.push(ArticleDetails {
        id,
        user_id,
        world_id,
        url: url.to_owned(),
        last_checked: None,
        title: String::new(),
        worldanvil_id: None,
    });
    Ok(id)
}

/// The external identifiers named by a listing, as character sequences.
pub open spec fn string_views(v: Seq<String>) -> Seq<Seq<char>> {
    Seq::new(v.len(), |i: int| v[i]@)
}

/// The predicate selecting the article rows that survive the delete pass:
/// a row stays when it belongs to another user, when its external
/// identifier is null, or when no listed identifier differs from its own.
/// Articles are user-owned, so the refresh never touches another user's
/// rows.
pub open spec fn article_keep_pred(uid: i64, ids: Seq<Seq<char>>) -> spec_fn(ArticleDetails) -> bool {
    |a: ArticleDetails| !(a.user_id == uid && (a.worldanvil_id matches Some(w) && exists|k: int|
        0 <= k < ids.len() && ids[k] != w@))
}

/// Some article row of the user carries this URL and title under this
/// identifier.
pub open spec fn registered_row(post: Store, uid: i64, wid: i64, urls: Seq<String>, titles: Seq<String>, id: i64) -> bool {
    exists|k: int, j: int|
        {
            &&& 0 <= k < urls.len()
            &&& 0 <= j < post.articles@.len()
            &&& (#[trigger] post.articles@[j]).id == id
            &&& post.articles@[j].user_id == uid
            &&& post.articles@[j].world_id == wid
            &&& post.articles@[j].url@ == (#[trigger] urls[k])@
            &&& post.articles@[j].title@ == titles[k]@
        }
}

/// Refresh the user's watched articles from a listing: drop the user's
/// rows whose external identifier differs from some listed one, insert a
/// row per listed URL the user does not already watch, and return the
/// identifier of the first row inserted; with nothing to insert the caller
/// sees a missing-row failure.
pub fn register_articles(
    user_id: i64,
    world_id: i64,
    urls: &Vec<String>,
    titles: &Vec<String>,
    worldanvil_ids: &Vec<String>,
    store: &mut Store,
) -> (r: Result<i64, StoreError>)
    requires
        old(store).wf(),
        urls@.len() == titles@.len(),
        old(store).next_id + urls@.len() <= i64::MAX,
    ensures
        final(store).wf(),
        same_except_articles(*old(store), *final(store)),
        forall|k: int|
            0 <= k < urls@.len() ==> article_url_present(
                final(store).articles@,
                user_id,
                (#[trigger] urls@[k])@,
            ),
        match r {
            Ok(id) => registered_row(*final(store), user_id, world_id, urls@, titles@, id),
            Err(e) => e == StoreError::NotFound && final(store).articles@ == old(
                store,
            ).articles@.filter(article_keep_pred(user_id, string_views(worldanvil_ids@))),
        },
{
    let ghost pre = *store;
    let ghost ids = string_views(worldanvil_ids@);
    let mut kept: Vec<ArticleDetails> = Vec::new();
    let mut i: usize = 0;
    proof {
        reveal(Seq::filter);
        assert(store.articles@.take(0) =~= Seq::<ArticleDetails>::empty());
    }
    while i < store.articles.len()
        invariant
            *store == pre,
            pre.wf(),
            i <= store.articles@.len(),
            worldanvil_ids@.len() == ids.len(),
            forall|k: int| 0 <= k < ids.len() ==> ids[k] == worldanvil_ids@[k]@,
            kept@ == store.articles@.take(i as int).filter(article_keep_pred(user_id, ids)),
            forall|a: int| 0 <= a < kept@.len() ==> 1 <= (#[trigger] kept@[a]).id < pre.next_id,
        decreases store.articles@.len() - i,
    {
        proof {
            reveal(Seq::filter);
            assert(store.articles@.take(i + 1).drop_last() =~= store.articles@.take(i as int));
            assert(store.articles@.take(i + 1).last() == store.articles@[i as int]);
        }
        let row_uid = store.articles[i].user_id;
        let delete = row_uid == user_id && match &store.articles[i].worldanvil_id {
            Some(w) => {
                let mut differs = false;
                let mut k: usize = 0;
                while k < worldanvil_ids.len()
                    invariant
                        i < store.articles@.len(),
                        store.articles@[i as int].worldanvil_id matches Some(x) && x == w,
                        k <= worldanvil_ids@.len(),
                        worldanvil_ids@.len() == ids.len(),
                        forall|m: int| 0 <= m < ids.len() ==> ids[m] == worldanvil_ids@[m]@,
                        differs == exists|m: int| 0 <= m < k && ids[m] != w@,
                    decreases worldanvil_ids@.len() - k,
                {
                    if !str_eq(worldanvil_ids[k].as_str(), w.as_str()) {
                        proof {
                            assert(ids[k as int] != w@);
                        }
                        differs = true;
                    }
                    k += 1;
                }
                differs
            },
            None => false,
        };
        proof {
            assert(delete == !article_keep_pred(user_id, ids)(store.articles@[i as int]));
        }
        if !delete {
            kept.push(store.articles[i].duplicate());
        }
        i += 1;
    }
    proof {
        assert(store.articles@.take(store.articles@.len() as int) =~= store.articles@);
        store.articles@.lemma_filter_len(article_keep_pred(user_id, ids));
    }
    store.articles = kept;
    let ghost mid = *store;
    let mut first: Option<i64> = None;
    let mut k: usize = 0;
    while k < urls.len()
        invariant
            mid.wf(),
            store.wf(),
            k <= urls@.len(),
            urls@.len() == titles@.len(),
            same_except_articles(mid, *store),
            mid.next_id + urls@.len() <= i64::MAX,
            store.next_id <= mid.next_id + k,
            mid.next_id <= store.next_id,
            mid.articles@.len() <= store.articles@.len(),
            forall|j: int| 0 <= j < mid.articles@.len() ==> store.articles@[j] == mid.articles@[j],
            forall|j: int|
                mid.articles@.len() <= j < store.articles@.len()
                    ==> (#[trigger] store.articles@[j]).user_id == user_id
                    && store.articles@[j].world_id == world_id,
            forall|m: int|
                0 <= m < k ==> article_url_present(store.articles@, user_id, (#[trigger] urls@[m])@),
            first matches Some(id) ==> registered_row(*store, user_id, world_id, urls@, titles@, id),
            first is None ==> store.articles@ == mid.articles@,
        decreases urls@.len() - k,
    {
        let ghost before = *store;
        let ghost prior_first = first;
        let mut present = false;
        let mut j: usize = 0;
        while j < store.articles.len()
            invariant
                *store == before,
                k < urls@.len(),
                j <= store.articles@.len(),
                present == exists|a: int|
                    0 <= a < j && article_url_at(store.articles@, user_id, urls@[k as int]@, a),
            decreases store.articles@.len() - j,
        {
            if store.articles[j].user_id == user_id && str_eq(
                store.articles[j].url.as_str(),
                urls[k].as_str(),
            ) {
                proof {
                    assert(article_url_at(store.articles@, user_id, urls@[k as int]@, j as int));
                }
                present = true;
            }
            j += 1;
        }
        proof {
            assert(present == article_url_present(before.articles@, user_id, urls@[k as int]@));
        }
        if !present {
            let id = store.next_id;
            store.next_id = store.next_id + 1;
            store.articles.push(ArticleDetails {
                id,
                user_id,
                world_id,
                url: urls[k].clone(),
                last_checked: None,
                title: titles[k].clone(),
                worldanvil_id: None,
            });
            if first.is_none() {
                first = Some(id);
                proof {
                    let n = before.articles@.len() as int;
                    assert(store.articles@[n].url@ == urls@[k as int]@);
                    assert(registered_row(*store, user_id, world_id, urls@, titles@, id));
                }
            }
            proof {
                let n = before.articles@.len() as int;
                assert(article_url_at(store.articles@, user_id, urls@[k as int]@, n));
            }
        }
        proof {
            assert forall|m: int| 0 <= m < k + 1 implies article_url_present(
                store.articles@,
                user_id,
                (#[trigger] urls@[m])@,
            ) by {
                if m < k as int {
                    let a = choose|a: int|
                        article_url_at(before.articles@, user_id, urls@[m]@, a);
                    assert(article_url_at(store.articles@, user_id, urls@[m]@, a));
                } else {
                    if present {
                        let a = choose|a: int|
                            article_url_at(before.articles@, user_id, urls@[k as int]@, a);
                        assert(article_url_at(store.articles@, user_id, urls@[k as int]@, a));
                    }
                }
            }
            match prior_first {
                Some(idv) => {
                assert(registered_row(before, user_id, world_id, urls@, titles@, idv));
                let (kk, jj) = choose|kk: int, jj: int|
                    {
                        &&& 0 <= kk < urls@.len()
                        &&& 0 <= jj < before.articles@.len()
                        &&& (#[trigger] before.articles@[jj]).id == idv
                        &&& before.articles@[jj].user_id == user_id
                        &&& before.articles@[jj].world_id == world_id
                        &&& before.articles@[jj].url@ == (#[trigger] urls@[kk])@
                        &&& before.articles@[jj].title@ == titles@[kk]@
                    };
                assert(store.articles@[jj] == before.articles@[jj]);
                assert(registered_row(*store, user_id, world_id, urls@, titles@, idv));
                },
                None => {},
            }
        }
        k += 1;
    }
    match first {
        Some(id) => Ok(id),
        None => {
            proof {
                assert(store.articles@ == mid.articles@);
            }
            Err(StoreError::NotFound)
        },
    }
}

/// Content row `i` belongs to this article.
pub open spec fn content_at(contents: Seq<ArticleContent>, article_id: i64, i: int) -> bool {
    0 <= i < contents.len() && contents[i].article_id == article_id
}

/// Some content row belongs to this article.
pub open spec fn content_present(contents: Seq<ArticleContent>, article_id: i64) -> bool {
    exists|i: int| content_at(contents, article_id, i)
}

/// The content row carries this external identifier and title.
pub open spec fn content_fields(c: ArticleContent, article_id: i64, w: Seq<char>, t: Seq<char>) -> bool {
    c.article_id == article_id && c.worldanvil_id@ == w && c.title@ == t
}

/// The article's content row was refreshed in place at `i`.
pub open spec fn content_updated_at(pre: Store, post: Store, article_id: i64, w: Seq<char>, t: Seq<char>, i: int) -> bool {
    &&& content_at(pre.contents@, article_id, i)
    &&& post.contents@.len() == pre.contents@.len()
    &&& (forall|j: int|
        0 <= j < pre.contents@.len() && j != i ==> post.contents@[j] == pre.contents@[j])
    &&& content_fields(post.contents@[i], article_id, w, t)
    &&& post.contents@[i].id == pre.contents@[i].id
    &&& post.next_id == pre.next_id
}

/// Some content row was refreshed in place.
pub open spec fn content_updated(pre: Store, post: Store, article_id: i64, w: Seq<char>, t: Seq<char>) -> bool {
    exists|i: int| content_updated_at(pre, post, article_id, w, t, i)
}

/// A fresh content row was appended.
pub open spec fn content_inserted(pre: Store, post: Store, article_id: i64, w: Seq<char>, t: Seq<char>) -> bool {
    &&& post.contents@.len() == pre.contents@.len() + 1
    &&& (forall|j: int| 0 <= j < pre.contents@.len() ==> post.contents@[j] == pre.contents@[j])
    &&& content_fields(post.contents@[pre.contents@.len() as int], article_id, w, t)
    &&& post.contents@[pre.contents@.len() as int].id == pre.next_id
    &&& post.next_id == pre.next_id + 1
}

/// Full contract of [`update_article_content`]: the article's single
/// content record ends up carrying exactly this identifier and title.
pub open spec fn content_upsert_post(pre: Store, post: Store, article_id: i64, w: Seq<char>, t: Seq<char>) -> bool {
    &&& same_except_contents(pre, post)
    &&& if content_present(pre.contents@, article_id) {
        content_updated(pre, post, article_id, w, t)
    } else {
        content_inserted(pre, post, article_id, w, t)
    }
}

/// Create or update the article's content record; called unconditionally
/// on every successful parse.
pub fn update_article_content(
    store: &mut Store,
    article_id: i64,
    worldanvil_id: &str,
    title: &str,
) -> (r: Result<(), StoreError>)
    requires
        old(store).wf(),
    ensures
        final(store).wf(),
        match r {
            Ok(_) => content_upsert_post(*old(store), *final(store), article_id, worldanvil_id@, title@),
            Err(e) => e == StoreError::Full && *final(store) == *old(store) && old(store).next_id
                == i64::MAX && !content_present(old(store).contents@, article_id),
        },
{
    let ghost pre = *store;
    let mut i: usize = 0;
    while i < store.contents.len()
        invariant
            *store == pre,
            pre == *old(store),
            pre.wf(),
            i <= store.contents@.len(),
            forall|k: int| 0 <= k < i ==> !content_at(pre.contents@, article_id, k),
        decreases store.contents@.len() - i,
    {
        if store.contents[i].article_id == article_id {
            store.contents[i].worldanvil_id = worldanvil_id.to_owned();
            store.contents[i].title = title.to_owned();
            proof {
                assert(content_at(pre.contents@, article_id, i as int));
                assert(content_updated_at(pre, *store, article_id, worldanvil_id@, title@, i as int));
                assert forall|a: int| 0 <= a < store.contents@.len() implies 1
                    <= #[trigger] store.contents@[a].id < store.next_id by {
                    assert(store.contents@[a].id == pre.contents@[a].id);
                }
                assert forall|a: int, b: int| 0 <= a < b < store.contents@.len() implies
                    store.contents@[a].id != store.contents@[b].id by {
                    assert(store.contents@[a].id == pre.contents@[a].id);
                    assert(store.contents@[b].id == pre.contents@[b].id);
                }
                assert forall|a: int, b: int| 0 <= a < b < store.contents@.len() implies
                    store.contents@[a].article_id != store.contents@[b].article_id by {
                    assert(store.contents@[a].article_id == pre.contents@[a].article_id);
                    assert(store.contents@[b].article_id == pre.contents@[b].article_id);
                }
            }
            return Ok(());
        }
        i += 1;
    }
    if store.next_id == i64::MAX {
        return Err(StoreError::Full);
    }
    let id = store.next_id;
    store.next_id = store.next_id + 1;
    store.contents.push(ArticleContent {
        id,
        article_id,
        worldanvil_id: worldanvil_id.to_owned(),
        title: title.to_owned(),
    });
    proof {
        assert forall|a: int, b: int| 0 <= a < b < store.contents@.len() implies
            store.contents@[a].article_id != store.contents@[b].article_id by {
            if b == pre.contents@.len() {
                assert(!content_at(pre.contents@, article_id, a));
            }
        }
    }
    Ok(())
}

/// The predicate selecting the articles of one user in one world.
pub open spec fn article_of(uid: i64, wid: i64) -> spec_fn(ArticleDetails) -> bool {
    |a: ArticleDetails| a.user_id == uid && a.world_id == wid
}

/// The identifier of each article of the user's world, in table order.
pub fn get_article_ids(store: &Store, user_id: &i64, world_id: &i64) -> (r: Vec<i64>)
    ensures
        r@ == store.articles@.filter(article_of(*user_id, *world_id)).map_values(
            |a: ArticleDetails| a.id,
        ),
{
    let uid = *user_id;
    let wid = *world_id;
    let mut r: Vec<i64> = Vec::new();
    let mut i: usize = 0;
    let ghost fid = (|a: ArticleDetails| a.id);
    proof {
        reveal(Seq::filter);
        assert(store.articles@.take(0) =~= Seq::<ArticleDetails>::empty());
        assert(r@ =~= store.articles@.take(0).filter(article_of(uid, wid)).map_values(fid));
    }
    while i < store.articles.len()
        invariant
            uid == *user_id,
            wid == *world_id,
            fid == (|a: ArticleDetails| a.id),
            i <= store.articles@.len(),
            r@ == store.articles@.take(i as int).filter(article_of(uid, wid)).map_values(fid),
        decreases store.articles@.len() - i,
    {
        proof {
            reveal(Seq::filter);
            assert(store.articles@.take(i + 1).drop_last() =~= store.articles@.take(i as int));
            assert(store.articles@.take(i + 1).last() == store.articles@[i as int]);
        }
        if store.articles[i].user_id == uid && store.articles[i].world_id == wid {
            r.push(store.articles[i].id);
            proof {
                let t1 = store.articles@.take(i + 1).filter(article_of(uid, wid));
                assert(t1 == store.articles@.take(i as int).filter(article_of(uid, wid)).push(
                    store.articles@[i as int],
                ));
                assert(t1.map_values(fid) =~= t1.drop_last().map_values(fid).push(
                    fid(store.articles@[i as int]),
                ));
            }
        }
        i += 1;
    }
    proof {
        assert(store.articles@.take(store.articles@.len() as int) =~= store.articles@);
    }
    r
}

/// The task row concerns this (user, article) pair.
pub open spec fn task_for_pair(t: ArticleQueueRow, uid: i64, aid: i64) -> bool {
    t.entry.user_id == uid && t.entry.article_id == aid
}

/// Some task row concerns the pair.
pub open spec fn pair_has_task(tasks: Seq<ArticleQueueRow>, uid: i64, aid: i64) -> bool {
    exists|i: int| 0 <= i < tasks.len() && task_for_pair(#[trigger] tasks[i], uid, aid)
}

/// Task row `i` is the pair's most recent (highest-identifier) row, and it
/// is done.
pub open spec fn latest_task_done_at(tasks: Seq<ArticleQueueRow>, uid: i64, aid: i64, i: int) -> bool {
    &&& 0 <= i < tasks.len()
    &&& task_for_pair(tasks[i], uid, aid)
    &&& tasks[i].done
    &&& (forall|j: int|
        0 <= j < tasks.len() && task_for_pair(#[trigger] tasks[j], uid, aid) ==> tasks[j].entry.id
            <= tasks[i].entry.id)
}

/// The pair's most recent task row is done.
pub open spec fn latest_task_done(tasks: Seq<ArticleQueueRow>, uid: i64, aid: i64) -> bool {
    exists|i: int| latest_task_done_at(tasks, uid, aid, i)
}

/// The article may be enqueued again: it has no task at all, or its most
/// recent task is done.
pub open spec fn article_unqueued(tasks: Seq<ArticleQueueRow>, uid: i64, aid: i64) -> bool {
    !pair_has_task(tasks, uid, aid) || latest_task_done(tasks, uid, aid)
}

/// The predicate selecting the user's articles of a world that are not
/// currently in the job queue.
pub open spec fn unqueued_pred(tasks: Seq<ArticleQueueRow>, uid: i64, wid: i64) -> spec_fn(
    ArticleDetails,
) -> bool {
    |a: ArticleDetails| a.user_id == uid && a.world_id == wid && article_unqueued(tasks, uid, a.id)
}

/// Find all article identifiers of the user's world which are not
/// currently in the job queue: their most recent queue row, if any, is
/// done.
pub fn get_unqueued_article_ids(store: &Store, user_id: &i64, world_id: &i64) -> (r: Vec<i64>)
    requires
        store.wf(),
    ensures
        r@ == store.articles@.filter(unqueued_pred(store.tasks@, *user_id, *world_id)).map_values(
            |a: ArticleDetails| a.id,
        ),
{
    let uid = *user_id;
    let wid = *world_id;
    let mut r: Vec<i64> = Vec::new();
    let mut i: usize = 0;
    let ghost fid = (|a: ArticleDetails| a.id);
    let ghost pred = unqueued_pred(store.tasks@, uid, wid);
    proof {
        reveal(Seq::filter);
        assert(store.articles@.take(0) =~= Seq::<ArticleDetails>::empty());
        assert(r@ =~= store.articles@.take(0).filter(pred).map_values(fid));
    }
    while i < store.articles.len()
        invariant
            store.wf(),
            uid == *user_id,
            wid == *world_id,
            fid == (|a: ArticleDetails| a.id),
            pred == unqueued_pred(store.tasks@, uid, wid),
            i <= store.articles@.len(),
            r@ == store.articles@.take(i as int).filter(pred).map_values(fid),
        decreases store.articles@.len() - i,
    {
        proof {
            reveal(Seq::filter);
            assert(store.articles@.take(i + 1).drop_last() =~= store.articles@.take(i as int));
            assert(store.articles@.take(i + 1).last() == store.articles@[i as int]);
        }
        let aid = store.articles[i].id;
        let mut found = false;
        let mut best: usize = 0;
        let mut j: usize = 0;
        while j < store.tasks.len()
            invariant
                store.wf(),
                j <= store.tasks@.len(),
                !found ==> forall|m: int|
                    0 <= m < j ==> !task_for_pair(#[trigger] store.tasks@[m], uid, aid),
                found ==> best < j && task_for_pair(store.tasks@[best as int], uid, aid),
                found ==> forall|m: int|
                    0 <= m < j && task_for_pair(#[trigger] store.tasks@[m], uid, aid)
                        ==> store.tasks@[m].entry.id <= store.tasks@[best as int].entry.id,
            decreases store.tasks@.len() - j,
        {
            if store.tasks[j].entry.user_id == uid && store.tasks[j].entry.article_id == aid {
                if !found || store.tasks[best].entry.id < store.tasks[j].entry.id {
                    best = j;
                    found = true;
                }
            }
            j += 1;
        }
        let unqueued = if !found {
            proof {
                assert forall|m: int| !(0 <= m < store.tasks@.len() && task_for_pair(
                    #[trigger] store.tasks@[m],
                    uid,
                    aid,
                )) by {}
            }
            true
        } else {
            let done = store.tasks[best].done;
            proof {
                if done {
                    assert(latest_task_done_at(store.tasks@, uid, aid, best as int));
                } else {
                    if latest_task_done(store.tasks@, uid, aid) {
                        let m = choose|m: int| latest_task_done_at(store.tasks@, uid, aid, m);
                        assert(store.tasks@[m].entry.id <= store.tasks@[best as int].entry.id);
                        assert(store.tasks@[best as int].entry.id <= store.tasks@[m].entry.id);
                        if m != best as int {
                            assert(store.tasks@[m].entry.id != store.tasks@[best as int].entry.id);
                        }
                        assert(false);
                    }
                }
            }
            done
        };
        proof {
            assert(unqueued == article_unqueued(store.tasks@, uid, aid));
        }
        if store.articles[i].user_id == uid && store.articles[i].world_id == wid && unqueued {
            r.push(store.articles[i].id);
            proof {
                let t1 = store.articles@.take(i + 1).filter(pred);
                assert(t1 == store.articles@.take(i as int).filter(pred).push(
                    store.articles@[i as int],
                ));
                assert(t1.map_values(fid) =~= t1.drop_last().map_values(fid).push(
                    fid(store.articles@[i as int]),
                ));
            }
        }
        i += 1;
    }
    proof {
        assert(store.articles@.take(store.articles@.len() as int) =~= store.articles@);
    }
    r
}

/// Article row `i` matches the lookup and projects to `a`.
pub open spec fn article_row_at(st: Store, article_id: i64, uid: i64, a: Article, i: int) -> bool {
    &&& 0 <= i < st.articles@.len()
    &&& st.articles@[i].id == article_id
    &&& st.articles@[i].user_id == uid
    &&& a.id == st.articles@[i].id
    &&& a.user_id == st.articles@[i].user_id
    &&& a.world_id == st.articles@[i].world_id
    &&& a.url == st.articles@[i].url
    &&& a.last_checked == st.articles@[i].last_checked
}

/// Look the user's article up by its identifier.
pub fn get_article(store: &Store, article_id: i64, user_id: i64) -> (r: Result<
    Article,
    StoreError,
>)
    ensures
        match r {
            Ok(a) => exists|i: int| article_row_at(*store, article_id, user_id, a, i),
            Err(e) => e == StoreError::NotFound && (forall|i: int|
                0 <= i < store.articles@.len() ==> !((#[trigger] store.articles@[i]).id
                    == article_id && store.articles@[i].user_id == user_id)),
        },
{
    let mut i: usize = 0;
    while i < store.articles.len()
        invariant
            i <= store.articles@.len(),
            forall|k: int|
                0 <= k < i ==> !((#[trigger] store.articles@[k]).id == article_id
                    && store.articles@[k].user_id == user_id),
        decreases store.articles@.len() - i,
    {
        if store.articles[i].id == article_id && store.articles[i].user_id == user_id {
            let a = store.articles[i].as_article();
            proof {
                assert(article_row_at(*store, article_id, user_id, a, i as int));
            }
            return Ok(a);
        }
        i += 1;
    }
    Err(StoreError::NotFound)
}

/// How the article table looks after the matching rows are stamped as
/// checked at `t`.
pub open spec fn checked_post(pre: Store, post: Store, uid: i64, aid: i64, t: i64) -> bool {
    &&& same_except_articles(pre, post)
    &&& post.next_id == pre.next_id
    &&& post.articles@.len() == pre.articles@.len()
    &&& (forall|j: int|
        0 <= j < pre.articles@.len() && !(pre.articles@[j].id == aid && pre.articles@[j].user_id
            == uid) ==> post.articles@[j] == pre.articles@[j])
    &&& (forall|j: int|
        0 <= j < pre.articles@.len() && pre.articles@[j].id == aid && pre.articles@[j].user_id
            == uid ==> post.articles@[j] == (ArticleDetails {
            last_checked: Some(t),
            ..pre.articles@[j]
        }))
}

/// Stamp the article's `last_checked` with the current time, after a
/// successful re-sync.
pub fn set_article_checked_time(user_id: &i64, article_id: &i64, now: i64, store: &mut Store)
    requires
        old(store).wf(),
    ensures
        final(store).wf(),
        checked_post(*old(store), *final(store), *user_id, *article_id, now),
{
    let ghost pre = *store;
    let uid = *user_id;
    let aid = *article_id;
    let mut j: usize = 0;
    while j < store.articles.len()
        invariant
            uid == *user_id,
            aid == *article_id,
            pre.wf(),
            j <= store.articles@.len(),
            same_except_articles(pre, *store),
            store.next_id == pre.next_id,
            store.articles@.len() == pre.articles@.len(),
            forall|m: int|
                0 <= m < pre.articles@.len() && !(m < j && pre.articles@[m].id == aid
                    && pre.articles@[m].user_id == uid) ==> store.articles@[m] == pre.articles@[m],
            forall|m: int|
                0 <= m < j && pre.articles@[m].id == aid && pre.articles@[m].user_id == uid
                    ==> store.articles@[m] == (ArticleDetails {
                    last_checked: Some(now),
                    ..pre.articles@[m]
                }),
        decreases store.articles@.len() - j,
    {
        if store.articles[j].id == aid && store.articles[j].user_id == uid {
            store.articles[j].last_checked = Some(now);
        }
        j += 1;
    }
    proof {
        assert forall|a: int| 0 <= a < store.articles@.len() implies 1
            <= #[trigger] store.articles@[a].id < store.next_id by {
            if pre.articles@[a].id == aid && pre.articles@[a].user_id == uid {
                assert(store.articles@[a] == (ArticleDetails {
                    last_checked: Some(now),
                    ..pre.articles@[a]
                }));
            } else {
                assert(store.articles@[a] == pre.articles@[a]);
            }
        }
    }
}

/// The most recent (highest-identifier) queue row of an article, whoever
/// owns it, as the status join reads it.
pub open spec fn latest_task_row(tasks: Seq<ArticleQueueRow>, aid: i64) -> Option<ArticleQueueRow>
    decreases tasks.len(),
{
    if tasks.len() == 0 {
        None
    } else {
        let rest = latest_task_row(tasks.drop_last(), aid);
        let t = tasks.last();
        if t.entry.article_id == aid {
            match rest {
                Some(r) => if t.entry.id >= r.entry.id {
                    Some(t)
                } else {
                    Some(r)
                },
                None => Some(t),
            }
        } else {
            rest
        }
    }
}

/// How many comment rows an article has, whoever owns them.
pub open spec fn article_comment_count(comments: Seq<crate::schema::Comment>, aid: i64) -> int
    decreases comments.len(),
{
    if comments.len() == 0 {
        0int
    } else {
        article_comment_count(comments.drop_last(), aid) + if comments.last().article_id == aid {
            1int
        } else {
            0int
        }
    }
}

/// The status row one article presents: its own columns, its most recent
/// queue outcome if any, and its comment count.
pub open spec fn status_of(st: Store, a: ArticleDetails) -> ArticleAndStatus {
    ArticleAndStatus {
        article_id: a.id,
        title: a.title,
        url: a.url,
        last_checked: a.last_checked,
        status: match latest_task_row(st.tasks@, a.id) {
            Some(t) => Some(ArticleStatus { done: t.done, error: t.error, error_msg: t.error_msg }),
            None => None,
        },
        unanswered_comments: article_comment_count(st.comments@, a.id) as i64,
    }
}

/// The status rows of the user's world, in table order, before sorting.
pub open spec fn statuses_of(st: Store, uid: i64, wid: i64) -> Seq<ArticleAndStatus> {
    st.articles@.filter(article_of(uid, wid)).map_values(|a: ArticleDetails| status_of(st, a))
}

/// The rows are ordered by comment count, largest first.
pub open spec fn sorted_by_comments_desc(rows: Seq<ArticleAndStatus>) -> bool {
    forall|a: int, b: int|
        0 <= a < b < rows.len() ==> (#[trigger] rows[a]).unanswered_comments
            >= (#[trigger] rows[b]).unanswered_comments
}

/// One status row per article of the user's world, each carrying the
/// article's most recent queue outcome and its comment count, ordered by
/// comment count descending.
pub fn get_articles_and_status(user_id: &i64, world_id: &i64, store: &Store) -> (r: Vec<
    ArticleAndStatus,
>)
    requires
        store.wf(),
    ensures
        r@.to_multiset() == statuses_of(*store, *user_id, *world_id).to_multiset(),
        sorted_by_comments_desc(r@),
{
    let uid = *user_id;
    let wid = *world_id;
    let ghost f = (|a: ArticleDetails| status_of(*store, a));
    let mut built: Vec<ArticleAndStatus> = Vec::new();
    let mut i: usize = 0;
    proof {
        reveal(Seq::filter);
        assert(store.articles@.take(0) =~= Seq::<ArticleDetails>::empty());
        assert(built@ =~= store.articles@.take(0).filter(article_of(uid, wid)).map_values(f));
    }
    while i < store.articles.len()
        invariant
            store.wf(),
            uid == *user_id,
            wid == *world_id,
            f == (|a: ArticleDetails| status_of(*store, a)),
            i <= store.articles@.len(),
            built@ == store.articles@.take(i as int).filter(article_of(uid, wid)).map_values(f),
        decreases store.articles@.len() - i,
    {
        proof {
            reveal(Seq::filter);
            assert(store.articles@.take(i + 1).drop_last() =~= store.articles@.take(i as int));
            assert(store.articles@.take(i + 1).last() == store.articles@[i as int]);
        }
        if store.articles[i].user_id == uid && store.articles[i].world_id == wid {
            let aid = store.articles[i].id;
            let mut found = false;
            let mut best: usize = 0;
            let mut j: usize = 0;
            proof {
                assert(store.tasks@.take(0) =~= Seq::<ArticleQueueRow>::empty());
            }
            while j < store.tasks.len()
                invariant
                    store.wf(),
                    j <= store.tasks@.len(),
                    !found ==> latest_task_row(store.tasks@.take(j as int), aid) is None,
                    found ==> best < j && store.tasks@[best as int].entry.article_id == aid
                        && latest_task_row(store.tasks@.take(j as int), aid) == Some(
                        store.tasks@[best as int],
                    ),
                decreases store.tasks@.len() - j,
            {
                proof {
                    assert(store.tasks@.take(j + 1).drop_last() =~= store.tasks@.take(j as int));
                    assert(store.tasks@.take(j + 1).last() == store.tasks@[j as int]);
                }
                if store.tasks[j].entry.article_id == aid {
                    if !found || store.tasks[j].entry.id > store.tasks[best].entry.id {
                        best = j;
                        found = true;
                    } else {
                        proof {
                            assert(store.tasks@[j as int].entry.id
                                != store.tasks@[best as int].entry.id);
                        }
                    }
                }
                j += 1;
            }
            proof {
                assert(store.tasks@.take(store.tasks@.len() as int) =~= store.tasks@);
            }
            let status = if found {
                let t = &store.tasks[best];
                Some(ArticleStatus {
                    done: t.done,
                    error: t.error,
                    error_msg: crate::text::clone_opt_string(&t.error_msg),
                })
            } else {
                None
            };
            let mut cnt: i64 = 0;
            let mut k: usize = 0;
            proof {
                assert(store.comments@.take(0) =~= Seq::<crate::schema::Comment>::empty());
            }
            while k < store.comments.len()
                invariant
                    store.wf(),
                    k <= store.comments@.len(),
                    0 <= cnt <= k,
                    cnt == article_comment_count(store.comments@.take(k as int), aid),
                decreases store.comments@.len() - k,
            {
                proof {
                    assert(store.comments@.take(k + 1).drop_last() =~= store.comments@.take(
                        k as int,
                    ));
                    assert(store.comments@.take(k + 1).last() == store.comments@[k as int]);
                }
                if store.comments[k].article_id == aid {
                    cnt = cnt + 1;
                }
                k += 1;
            }
            proof {
                assert(store.comments@.take(store.comments@.len() as int) =~= store.comments@);
            }
            let row = ArticleAndStatus {
                article_id: aid,
                title: store.articles[i].title.clone(),
                url: store.articles[i].url.clone(),
                last_checked: store.articles[i].last_checked,
                status,
                unanswered_comments: cnt,
            };
            proof {
                assert(row == status_of(*store, store.articles@[i as int]));
            }
            built.push(row);
            proof {
                let t1 = store.articles@.take(i + 1).filter(article_of(uid, wid));
                assert(t1 == store.articles@.take(i as int).filter(article_of(uid, wid)).push(
                    store.articles@[i as int],
                ));
                assert(t1.map_values(f) =~= t1.drop_last().map_values(f).push(
                    f(store.articles@[i as int]),
                ));
            }
        }
        i += 1;
    }
    proof {
        assert(store.articles@.take(store.articles@.len() as int) =~= store.articles@);
    }
    sort_statuses_desc(built)
}

/// Sort status rows by comment count, largest first, by repeatedly
/// extracting a largest remaining row.
fn sort_statuses_desc(rows: Vec<ArticleAndStatus>) -> (r: Vec<ArticleAndStatus>)
    ensures
        r@.to_multiset() == rows@.to_multiset(),
        sorted_by_comments_desc(r@),
{
    broadcast use vstd::seq_lib::group_to_multiset_ensures;

    let ghost orig = rows@;
    let mut rest = rows;
    let mut out: Vec<ArticleAndStatus> = Vec::new();
    while rest.len() > 0
        invariant
            out@.to_multiset().add(rest@.to_multiset()) =~= orig.to_multiset(),
            sorted_by_comments_desc(out@),
            forall|a: int, b: int|
                0 <= a < out@.len() && 0 <= b < rest@.len() ==> (#[trigger] out@[a]).unanswered_comments
                    >= (#[trigger] rest@[b]).unanswered_comments,
        decreases rest@.len(),
    {
        let mut m: usize = 0;
        let mut j: usize = 1;
        while j < rest.len()
            invariant
                rest@.len() > 0,
                m < j <= rest@.len(),
                forall|b: int|
                    0 <= b < j ==> (#[trigger] rest@[b]).unanswered_comments
                        <= rest@[m as int].unanswered_comments,
            decreases rest@.len() - j,
        {
            if rest[j].unanswered_comments > rest[m].unanswered_comments {
                m = j;
            }
            j += 1;
        }
        let ghost prior_out = out@;
        let ghost prior_rest = rest@;
        let x = rest.remove(m);
        out.push(x);
        proof {
            prior_out.to_multiset_ensures();
            prior_rest.to_multiset_ensures();
            assert(out@ == prior_out.push(x));
            assert(prior_out.push(x).to_multiset() =~= prior_out.to_multiset().insert(x));
            assert(rest@ == prior_rest.remove(m as int));
            assert(prior_rest.remove(m as int).to_multiset() =~= prior_rest.to_multiset().remove(
                prior_rest[m as int],
            ));
            assert(prior_rest.contains(x)) by {
                assert(prior_rest[m as int] == x);
            }
            assert(prior_rest.to_multiset().count(x) > 0);
            assert(prior_rest.to_multiset() =~= rest@.to_multiset().insert(x));
            assert(out@.to_multiset().add(rest@.to_multiset()) =~= orig.to_multiset());
            assert forall|a: int, b: int|
                0 <= a < out@.len() && 0 <= b < rest@.len() implies (#[trigger] out@[a]).unanswered_comments
                >= (#[trigger] rest@[b]).unanswered_comments by {
                let pb = if b < m as int {
                    b
                } else {
                    b + 1
                };
                assert(rest@[b] == prior_rest[pb]);
                if a < prior_out.len() {
                    assert(out@[a] == prior_out[a]);
                } else {
                    assert(out@[a] == x);
                }
            }
        }
    }
    out
}


} // verus!
