//! Seeding a store with the fixture data integration runs expect: one
//! known author, one account with its fairness-queue row, one world and
//! two watched articles.

use crate::article::register_article;
use crate::query::upsert_wa_user;
use crate::schema::{WorldAnvilUserInsert, WorldInsert};
use crate::store::{Store, StoreError};
use crate::user::{get_user_id_or_insert, insert_user_queue};
use crate::world::upsert_worlds;
use vstd::prelude::*;

verus! {

/// Insert the fixture rows, under the given account key, stamped `now`.
pub fn add_test_data(store: &mut Store, test_user_key: &str, now: i64) -> (r: Result<
    (),
    StoreError,
>)
    requires
        old(store).wf(),
        old(store).next_id + 6 <= i64::MAX,
    ensures
        final(store).wf(),
{
    let author = WorldAnvilUserInsert {
        worldanvil_id: Some("225bd01d-124c-4aa2-885b-0fc4bdf41bd8".to_owned()),
        name: "nnie".to_owned(),
        avatar_url: None,
    };
    let _author_id = match upsert_wa_user(store, &author) {
        Ok(id) => id,
        Err(e) => {
            return Err(e);
        },
    };
    let user = match get_user_id_or_insert(
        store,
        test_user_key,
        "nnie",
        "225bd01d-124c-4aa2-885b-0fc4bdf41bd8",
        now,
    ) {
        Ok(u) => u,
        Err(e) => {
            return Err(e);
        },
    };
    match insert_user_queue(store, &user.id, now) {
        Ok(_) => {},
        Err(e) => {
            return Err(e);
        },
    }
    let world_ids = match upsert_worlds(
        store,
        &user.id,
        vec![
            WorldInsert {
                worldanvil_id: "e69d6a36-2d22-4bf2-80f9-456a9b0d909e".to_owned(),
                name: "Solaris".to_owned(),
            },
        ],
    ) {
        Ok(ids) => ids,
        Err(e) => {
            return Err(e);
        },
    };
    if world_ids.len() == 0 {
        return Err(StoreError::NotFound);
    }
    let world_id = world_ids[0];
    match register_article(
        user.id,
        world_id,
        "https://www.worldanvil.com/w/solaris-nnie/a/a-day-in-the-caloris-basin-law",
        store,
    ) {
        Ok(_) => {},
        Err(StoreError::Full) => {
            return Err(StoreError::Full);
        },
        Err(_) => {},
    }
    match register_article(
        user.id,
        world_id,
        "https://www.worldanvil.com/w/solaris-nnie/a/about-solaris-article",
        store,
    ) {
        Ok(_) => {},
        Err(StoreError::Full) => {
            return Err(StoreError::Full);
        },
        Err(_) => {},
    }
    Ok(())
}

} // verus!
