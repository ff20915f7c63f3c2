use commentater::article::register_articles;
use commentater::queue::{
    article_is_queued, complete_task, get_next_task, get_next_user, get_queue_length,
    insert_tasks, update_user_queue, update_user_queue_to,
};
use commentater::store::Store;
use commentater::user::{get_user_id_or_insert, insert_user_queue};
use commentater::world::upsert_worlds;
use commentater::schema::WorldInsert;

const DAY: i64 = 86400;

/// Ensure that users are only selected for update if they have at least one
/// queue entry.
#[test]
fn test_user_queue_logic() {
    let mut store = Store::new();
    let now = 10 * DAY;
    // Insert two users into the store.
    let user1 = get_user_id_or_insert(&mut store, "key1", "user1", "id1", now).unwrap();
    insert_user_queue(&mut store, &user1.id, now).unwrap();
    let user2 = get_user_id_or_insert(&mut store, "key2", "user2", "id2", now).unwrap();
    insert_user_queue(&mut store, &user2.id, now).unwrap();
    // Make it so user1 has an earlier last update time than user2.
    let queue1_id = store.user_queue[0].queue.id;
    let queue2_id = store.user_queue[1].queue.id;
    update_user_queue_to(&queue1_id, now - 2 * DAY, &mut store);
    update_user_queue_to(&queue2_id, now - DAY, &mut store);
    // Insert work for user 2.
    let worlds = upsert_worlds(
        &mut store,
        &user2.id,
        vec![WorldInsert {
            worldanvil_id: "worldid".to_string(),
            name: "testworld".to_string(),
        }],
    )
    .unwrap();
    let article_id = register_articles(
        user2.id,
        worlds[0],
        &vec!["myurl".to_string()],
        &vec!["mytitle".to_string()],
        &Vec::<String>::new(),
        &mut store,
    )
    .unwrap();
    insert_tasks(&user2.id, &[article_id], &mut store).unwrap();

    // Finally, attempt to select a user for work.
    // It should select user 2.
    let task = get_next_user(&mut store, now);
    let task_user_id = task.map(|t| t.user_id);
    assert_eq!(task_user_id, Some(user2.id));
}

fn seeded_store(now: i64) -> (Store, i64, i64) {
    let mut store = Store::new();
    let user = get_user_id_or_insert(&mut store, "key1", "user1", "id1", now).unwrap();
    insert_user_queue(&mut store, &user.id, now).unwrap();
    let worlds = upsert_worlds(
        &mut store,
        &user.id,
        vec![WorldInsert {
            worldanvil_id: "worldid".to_string(),
            name: "testworld".to_string(),
        }],
    )
    .unwrap();
    (store, user.id, worlds[0])
}

#[test]
fn test_fairness_oldest_user_first() {
    let now = 10 * DAY;
    let mut store = Store::new();
    let older = get_user_id_or_insert(&mut store, "key1", "user1", "id1", now).unwrap();
    insert_user_queue(&mut store, &older.id, now - 2 * DAY).unwrap();
    let newer = get_user_id_or_insert(&mut store, "key2", "user2", "id2", now).unwrap();
    insert_user_queue(&mut store, &newer.id, now - DAY).unwrap();
    insert_tasks(&older.id, &[77], &mut store).unwrap();
    insert_tasks(&newer.id, &[78], &mut store).unwrap();
    let selected = get_next_user(&mut store, now).unwrap();
    assert_eq!(selected.user_id, older.id);
    // The older user's row is locked now, so the next selection skips it.
    let selected2 = get_next_user(&mut store, now).unwrap();
    assert_eq!(selected2.user_id, newer.id);
}

#[test]
fn test_cooldown_blocks_reselection() {
    let now = 10 * DAY;
    let (mut store, user_id, _world) = seeded_store(now);
    insert_tasks(&user_id, &[77], &mut store).unwrap();
    let queue_id = store.user_queue[0].queue.id;
    update_user_queue(&queue_id, now, &mut store);
    // Touched at `now`: not eligible before the cooldown has passed.
    assert!(get_next_user(&mut store, now).is_none());
    assert!(get_next_user(&mut store, now + 2).is_none());
    // Strictly after the cooldown window the user is eligible again.
    assert!(get_next_user(&mut store, now + 3).is_some());
}

#[test]
fn test_no_double_dequeue() {
    let now = 10 * DAY;
    let (mut store, user_id, _world) = seeded_store(now);
    let qid = store.user_queue[0].queue.id;
    update_user_queue_to(&qid, now - DAY, &mut store);
    insert_tasks(&user_id, &[77, 78], &mut store).unwrap();
    let t1 = get_next_task(&user_id, &mut store).unwrap();
    let t2 = get_next_task(&user_id, &mut store).unwrap();
    assert_ne!(t1.id, t2.id);
    // Oldest-enqueued first.
    assert!(t1.id < t2.id);
    assert_eq!(t1.article_id, 77);
    assert_eq!(t2.article_id, 78);
    // Both rows locked: nothing left to hand out.
    assert!(get_next_task(&user_id, &mut store).is_none());
}

#[test]
fn test_complete_task_is_terminal() {
    let now = 10 * DAY;
    let (mut store, user_id, _world) = seeded_store(now);
    insert_tasks(&user_id, &[77], &mut store).unwrap();
    let task = get_next_task(&user_id, &mut store).unwrap();
    complete_task(task.id, Some("could not find #visual-container"), &mut store);
    // The row records the terminal outcome.
    let row = store
        .tasks
        .iter()
        .find(|r| r.entry.id == task.id)
        .unwrap();
    assert!(row.done);
    assert_eq!(row.error, Some(true));
    assert_eq!(
        row.error_msg.as_deref(),
        Some("could not find #visual-container")
    );
    // Even unlocked, a done task is never handed out again.
    commentater::queue::release_task_lock(task.id, &mut store);
    assert!(get_next_task(&user_id, &mut store).is_none());
}

#[test]
fn test_queue_length_and_is_queued() {
    let now = 10 * DAY;
    let (mut store, user_id, _world) = seeded_store(now);
    assert_eq!(get_queue_length(&store), 0);
    insert_tasks(&user_id, &[77, 78], &mut store).unwrap();
    assert_eq!(get_queue_length(&store), 2);
    assert!(article_is_queued(&user_id, &77, &store));
    assert!(!article_is_queued(&user_id, &79, &store));
    let task = get_next_task(&user_id, &mut store).unwrap();
    complete_task(task.id, None, &mut store);
    assert_eq!(get_queue_length(&store), 1);
    assert!(!article_is_queued(&user_id, &77, &store));
}
