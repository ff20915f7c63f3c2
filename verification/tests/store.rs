use commentater::article::{get_article, register_article, update_article_content};
use commentater::comments::{delete_comments, get_comments, insert_comments};
use commentater::datetime::DateTime;
use commentater::query::update_wa_users;
use commentater::schema::{CommentInsert, WorldAnvilUserInsert};
use commentater::store::{Store, StoreError};
use commentater::world::{get_worlds, upsert_worlds};
use commentater::schema::WorldInsert;

fn insert_record() -> WorldAnvilUserInsert {
    WorldAnvilUserInsert {
        worldanvil_id: Some("d05d748e-57d9-42f6-80fc-eff50fabda50".to_string()),
        name: "Tyrdal".to_string(),
        avatar_url: Some("/avatars/Tyrdal.png".to_string()),
    }
}

/// Round trip: upserting the same author record twice yields one row, with
/// an unchanged identifier, on both calls.
#[test]
fn test_wa_user_upsert_round_trip() {
    let mut store = Store::new();
    let first = update_wa_users(&mut store, vec![insert_record()]).unwrap();
    assert_eq!(first.len(), 1);
    assert_eq!(store.wa_users.len(), 1);
    let id = first[0].0;
    let second = update_wa_users(&mut store, vec![insert_record()]).unwrap();
    assert_eq!(second.len(), 1);
    assert_eq!(second[0].0, id);
    assert_eq!(store.wa_users.len(), 1);
    assert_eq!(
        second[0].1.as_deref(),
        Some("d05d748e-57d9-42f6-80fc-eff50fabda50")
    );
    assert_eq!(store.wa_users[0].name, "Tyrdal");
}

#[test]
fn test_wa_user_upsert_updates_name() {
    let mut store = Store::new();
    update_wa_users(&mut store, vec![insert_record()]).unwrap();
    let mut changed = insert_record();
    changed.name = "Tyrdal the Renamed".to_string();
    update_wa_users(&mut store, vec![changed]).unwrap();
    assert_eq!(store.wa_users.len(), 1);
    assert_eq!(store.wa_users[0].name, "Tyrdal the Renamed");
}

#[test]
fn test_wa_user_null_id_always_inserts() {
    let mut store = Store::new();
    let anon = WorldAnvilUserInsert {
        worldanvil_id: None,
        name: "anonymous".to_string(),
        avatar_url: None,
    };
    update_wa_users(&mut store, vec![anon.clone()]).unwrap();
    update_wa_users(&mut store, vec![anon]).unwrap();
    assert_eq!(store.wa_users.len(), 2);
}

#[test]
fn test_register_article_rejects_duplicate_url() {
    let mut store = Store::new();
    let id = register_article(7, 9, "https://example.invalid/a", &mut store).unwrap();
    let article = get_article(&store, id, 7).unwrap();
    assert_eq!(article.url, "https://example.invalid/a");
    assert_eq!(article.last_checked, None);
    let dup = register_article(7, 9, "https://example.invalid/a", &mut store);
    assert!(matches!(dup, Err(StoreError::NotFound)));
    assert_eq!(store.articles.len(), 1);
}

#[test]
fn test_comment_replacement_via_delete_and_insert() {
    let mut store = Store::new();
    let date = DateTime { year: 2024, month: 8, day: 24, hour: 3, minute: 12 };
    let rows = vec![
        CommentInsert {
            user_id: 7,
            author_id: 3,
            article_id: 40,
            content: "old comment".to_string(),
            date,
        },
        CommentInsert {
            user_id: 7,
            author_id: 4,
            article_id: 41,
            content: "other article".to_string(),
            date,
        },
    ];
    insert_comments(&mut store, 40, 7, vec![rows[0].clone()]).unwrap();
    insert_comments(&mut store, 41, 7, vec![rows[1].clone()]).unwrap();
    assert_eq!(get_comments(&store, 40, 7).len(), 1);
    delete_comments(&mut store, 40, 7).unwrap();
    assert_eq!(get_comments(&store, 40, 7).len(), 0);
    // Comments of other articles survive the replacement.
    let other = get_comments(&store, 41, 7);
    assert_eq!(other.len(), 1);
    assert_eq!(other[0].content, "other article");
    assert_eq!(other[0].author_id, Some(4));
    assert!(!other[0].starred);
    insert_comments(
        &mut store,
        40,
        7,
        vec![CommentInsert {
            user_id: 7,
            author_id: 3,
            article_id: 40,
            content: "new comment".to_string(),
            date,
        }],
    )
    .unwrap();
    let replaced = get_comments(&store, 40, 7);
    assert_eq!(replaced.len(), 1);
    assert_eq!(replaced[0].content, "new comment");
}

#[test]
fn test_update_article_content_upserts() {
    let mut store = Store::new();
    update_article_content(&mut store, 40, "wa-id-one", "First Title").unwrap();
    assert_eq!(store.contents.len(), 1);
    assert_eq!(store.contents[0].title, "First Title");
    update_article_content(&mut store, 40, "wa-id-one", "Second Title").unwrap();
    assert_eq!(store.contents.len(), 1);
    assert_eq!(store.contents[0].title, "Second Title");
    assert_eq!(store.contents[0].worldanvil_id, "wa-id-one");
    update_article_content(&mut store, 41, "wa-id-two", "Other").unwrap();
    assert_eq!(store.contents.len(), 2);
}

#[test]
fn test_upsert_worlds_updates_name_in_place() {
    let mut store = Store::new();
    let first = upsert_worlds(
        &mut store,
        &7,
        vec![WorldInsert { worldanvil_id: "w-1".to_string(), name: "Old Name".to_string() }],
    )
    .unwrap();
    let second = upsert_worlds(
        &mut store,
        &7,
        vec![WorldInsert { worldanvil_id: "w-1".to_string(), name: "New Name".to_string() }],
    )
    .unwrap();
    assert_eq!(first, second);
    let worlds = get_worlds(&store, &7);
    assert_eq!(worlds.len(), 1);
    assert_eq!(worlds[0].name, "New Name");
    assert_eq!(worlds[0].worldanvil_id, "w-1");
}
