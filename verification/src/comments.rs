//! Stored comments of an article: fetched, bulk-inserted, and replaced as
//! a set during reconciliation.

use crate::schema::{Comment, CommentInsert};
use crate::store::{Store, StoreError, same_except_comments};
use vstd::prelude::*;
use vstd::seq_lib::*;

verus! {

/// The predicate selecting the stored comments of one article and owner.
pub open spec fn comment_of(article_id: i64, user_id: i64) -> spec_fn(Comment) -> bool {
    |c: Comment| c.article_id == article_id && c.user_id == user_id
}

/// Fetch the stored comments of the article, in table order.
pub fn get_comments(store: &Store, article_id: i64, user_id: i64) -> (r: Vec<Comment>)
    ensures
        r@ == store.comments@.filter(comment_of(article_id, user_id)),
{
    let mut r: Vec<Comment> = Vec::new();
    let mut i: usize = 0;
    proof {
        reveal(Seq::filter);
        assert(store.comments@.take(0) =~= Seq::<Comment>::empty());
    }
    while i < store.comments.len()
        invariant
            i <= store.comments@.len(),
            r@ == store.comments@.take(i as int).filter(comment_of(article_id, user_id)),
        decreases store.comments@.len() - i,
    {
        proof {
            reveal(Seq::filter);
            assert(store.comments@.take(i + 1).drop_last() =~= store.comments@.take(i as int));
            assert(store.comments@.take(i + 1).last() == store.comments@[i as int]);
        }
        if store.comments[i].article_id == article_id && store.comments[i].user_id == user_id {
            r.push(store.comments[i].duplicate());
        }
        i += 1;
    }
    proof {
        assert(store.comments@.take(store.comments@.len() as int) =~= store.comments@);
    }
    r
}

/// The stored row that one insert record becomes: the article and owner
/// come from the statement's own parameters, the author is recorded, and
/// the flags start cleared.
pub open spec fn inserted_comment(
    id: i64,
    article_id: i64,
    user_id: i64,
    ci: CommentInsert,
    c: Comment,
) -> bool {
    &&& c.id == id
    &&& c.user_id == user_id
    &&& c.article_id == article_id
    &&& c.author_id == Some(ci.author_id)
    &&& c.content@ == ci.content@
    &&& c.date == ci.date
    &&& c.starred == false
    &&& c.deleted == false
}

/// Full contract of [`insert_comments`]: one fresh row per record, in
/// order, with consecutively allocated identifiers.
pub open spec fn insert_comments_post(
    pre: Store,
    post: Store,
    article_id: i64,
    user_id: i64,
    records: Seq<CommentInsert>,
) -> bool {
    &&& same_except_comments(pre, post)
    &&& post.next_id == pre.next_id + records.len()
    &&& post.comments@.len() == pre.comments@.len() + records.len()
    &&& (forall|j: int| 0 <= j < pre.comments@.len() ==> post.comments@[j] == pre.comments@[j])
    &&& (forall|k: int|
        0 <= k < records.len() ==> inserted_comment(
            (pre.next_id + k) as i64,
            article_id,
            user_id,
            #[trigger] records[k],
            post.comments@[pre.comments@.len() + k],
        ))
}

/// Insert unanswered comments for the article.
pub fn insert_comments(
    store: &mut Store,
    article_id: i64,
    user_id: i64,
    comments: Vec<CommentInsert>,
) -> (r: Result<(), StoreError>)
    requires
        old(store).wf(),
    ensures
        final(store).wf(),
        match r {
            Ok(_) => old(store).next_id + comments@.len() <= i64::MAX && insert_comments_post(
                *old(store),
                *final(store),
                article_id,
                user_id,
                comments@,
            ),
            Err(e) => e == StoreError::Full && *final(store) == *old(store) && old(store).next_id
                + comments@.len() > i64::MAX,
        },
{
    let ghost pre = *store;
    let cap = (i64::MAX - store.next_id) as u64;
    if comments.len() as u64 > cap {
        return Err(StoreError::Full);
    }
    let mut k: usize = 0;
    while k < comments.len()
        invariant
            pre.wf(),
            k <= comments@.len(),
            pre.next_id + comments@.len() <= i64::MAX,
            store.next_id == pre.next_id + k,
            same_except_comments(pre, *store),
            store.comments@.len() == pre.comments@.len() + k,
            forall|j: int| 0 <= j < pre.comments@.len() ==> store.comments@[j] == pre.comments@[j],
            forall|m: int|
                0 <= m < k ==> inserted_comment(
                    (pre.next_id + m) as i64,
                    article_id,
                    user_id,
                    #[trigger] comments@[m],
                    store.comments@[pre.comments@.len() + m],
                ),
        decreases comments@.len() - k,
    {
        let id = store.next_id;
        store.next_id = store.next_id + 1;
        let ci = &comments[k];
        store.comments.push(Comment {
            id,
            user_id,
            author_id: Some(ci.author_id),
            article_id,
            content: ci.content.clone(),
            date: ci.date,
            starred: false,
            deleted: false,
        });
        k += 1;
    }
    proof {
        assert forall|a: int| 0 <= a < store.comments@.len() implies 1
            <= #[trigger] store.comments@[a].id < store.next_id by {
            if a >= pre.comments@.len() {
                assert(inserted_comment(
                    (pre.next_id + (a - pre.comments@.len())) as i64,
                    article_id,
                    user_id,
                    comments@[a - pre.comments@.len()],
                    store.comments@[a],
                ));
            } else {
                assert(store.comments@[a] == pre.comments@[a]);
                assert(1 <= pre.comments@[a].id < pre.next_id);
            }
        }
    }
    Ok(())
}

/// Delete all stored comments of the article; the rest of the table is
/// untouched, in order.
pub fn delete_comments(store: &mut Store, article_id: i64, user_id: i64) -> (r: Result<
    (),
    StoreError,
>)
    requires
        old(store).wf(),
    ensures
        final(store).wf(),
        r is Ok,
        same_except_comments(*old(store), *final(store)),
        final(store).next_id == old(store).next_id,
        final(store).comments@ == old(store).comments@.filter(
            |c: Comment| !(c.article_id == article_id && c.user_id == user_id),
        ),
{
    let ghost pre = *store;
    let mut kept: Vec<Comment> = Vec::new();
    let mut i: usize = 0;
    let ghost keep = (|c: Comment| !(c.article_id == article_id && c.user_id == user_id));
    proof {
        reveal(Seq::filter);
        assert(store.comments@.take(0) =~= Seq::<Comment>::empty());
    }
    while i < store.comments.len()
        invariant
            *store == pre,
            pre.wf(),
            keep == (|c: Comment| !(c.article_id == article_id && c.user_id == user_id)),
            i <= store.comments@.len(),
            kept@ == store.comments@.take(i as int).filter(keep),
            forall|a: int| 0 <= a < kept@.len() ==> 1 <= (#[trigger] kept@[a]).id < pre.next_id,
        decreases store.comments@.len() - i,
    {
        proof {
            reveal(Seq::filter);
            assert(store.comments@.take(i + 1).drop_last() =~= store.comments@.take(i as int));
            assert(store.comments@.take(i + 1).last() == store.comments@[i as int]);
        }
        if !(store.comments[i].article_id == article_id && store.comments[i].user_id == user_id) {
            kept.push(store.comments[i].duplicate());
        }
        i += 1;
    }
    proof {
        assert(store.comments@.take(store.comments@.len() as int) =~= store.comments@);
        store.comments@.lemma_filter_len(keep);
    }
    store.comments = kept;
    Ok(())
}

} // verus!
