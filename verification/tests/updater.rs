use commentater::article_updater::{
    eligible_comments, find_comments_without_replies, update_task, update_task_begin, CycleStep,
    FetchOutcome, TaskOutcome,
};
use commentater::article::register_article;
use commentater::datetime::DateTime;
use commentater::parser::{Comment, ParseError, RootComment};
use commentater::queue::insert_tasks;
use commentater::store::Store;
use commentater::user::{get_user_id_or_insert, insert_user_queue};
use commentater::world::upsert_worlds;
use commentater::schema::WorldInsert;

const DAY: i64 = 86400;

fn comment_box_html(author: &str, author_uuid: &str, with_reply: bool) -> String {
    let reply = if with_reply {
        "<div class=\"comment-box-reply\"><span class=\"uss-css-user-username\">nnie</span><div class=\"comment-box-avatar\"><img class=\"img-avatar\" src=\"/avatars/nnie.png\"></div><div class=\"comment-box-date\"> Aug 25, 2024 10:00 </div><div class=\"comment-box-content\"><p>thanks!</p></div></div>"
    } else {
        ""
    };
    format!(
        "<div class=\"comment-box comment-author-{uuid}\"><span class=\"uss-css-user-username\">{author}</span><div class=\"comment-box-avatar\"><img class=\"img-avatar\" src=\"/avatars/{author}.png\"></div><div class=\"comment-box-date\"> Aug 24, 2024 03:12 </div><div class=\"comment-box-content\"><p>lovely article</p></div>{reply}</div>",
        uuid = author_uuid,
        author = author,
        reply = reply,
    )
}

fn example_page(comments: &str) -> String {
    format!(
        "<html><body><div id=\"visual-container\" class=\"vis world-e69d6a36-2d22-4bf2-80f9-456a9b0d909e\"><div id=\"content\"><div class=\"article-title\"><h1> Chewpaper </h1></div><div class=\"page-article-main article-4cdfec2c-b875-4dc6-b5c9-146470e9ac80\">article text</div>{comments}</div></div></body></html>",
        comments = comments,
    )
}

fn all_answered_page() -> String {
    let mut comments = String::new();
    for (author, uuid) in [
        ("Tyrdal", "d05d748e-57d9-42f6-80fc-eff50fabda50"),
        ("CoolG1319", "b51561d7-f49f-4493-85b1-5f5b2ff4c243"),
        ("skairunner", "9fe45c42-cb7e-47f0-bfb0-bd98762dda16"),
    ] {
        comments.push_str(&comment_box_html(author, uuid, true));
    }
    example_page(&comments)
}

fn one_unanswered_page() -> String {
    example_page(&comment_box_html(
        "Tyrdal",
        "d05d748e-57d9-42f6-80fc-eff50fabda50",
        false,
    ))
}

/// A store with one eligible user, one watched article and one pending
/// task; returns the store, the user id and the article id.
fn cycle_store(now: i64) -> (Store, i64, i64) {
    let mut store = Store::new();
    let user = get_user_id_or_insert(&mut store, "key1", "user1", "id1", now).unwrap();
    insert_user_queue(&mut store, &user.id, now - DAY).unwrap();
    let worlds = upsert_worlds(
        &mut store,
        &user.id,
        vec![WorldInsert {
            worldanvil_id: "worldid".to_string(),
            name: "testworld".to_string(),
        }],
    )
    .unwrap();
    let article_id = register_article(
        user.id,
        worlds[0],
        "https://www.worldanvil.com/w/solaris-nnie/a/chewpaper",
        &mut store,
    )
    .unwrap();
    insert_tasks(&user.id, &[article_id], &mut store).unwrap();
    (store, user.id, article_id)
}

#[test]
fn test_cycle_success_all_comments_answered() {
    let now = 10 * DAY;
    let (mut store, _user_id, article_id) = cycle_store(now);
    let sel = match update_task_begin(&mut store, now) {
        CycleStep::Fetch(sel) => sel,
        _ => panic!("expected a selection"),
    };
    assert_eq!(sel.url, "https://www.worldanvil.com/w/solaris-nnie/a/chewpaper");
    let outcome = update_task(&sel, FetchOutcome::Page(all_answered_page()), &mut store, now);
    assert!(matches!(outcome, TaskOutcome::Completed));
    // All three root comments have replies, so no comment row is stored.
    assert_eq!(store.comments.len(), 0);
    // The content record was still upserted.
    assert_eq!(store.contents.len(), 1);
    assert_eq!(store.contents[0].title, "Chewpaper");
    assert_eq!(
        store.contents[0].worldanvil_id,
        "4cdfec2c-b875-4dc6-b5c9-146470e9ac80"
    );
    // The three authors were upserted anyway.
    assert_eq!(store.wa_users.len(), 3);
    // The task is terminally done, without error, and the article stamped.
    let row = &store.tasks[0];
    assert!(row.done);
    assert_eq!(row.error, Some(false));
    assert!(row.error_msg.is_none());
    assert!(!row.locked);
    let article = store.articles.iter().find(|a| a.id == article_id).unwrap();
    assert_eq!(article.last_checked, Some(now));
}

#[test]
fn test_cycle_success_unanswered_comment_is_stored() {
    let now = 10 * DAY;
    let (mut store, user_id, article_id) = cycle_store(now);
    let sel = match update_task_begin(&mut store, now) {
        CycleStep::Fetch(sel) => sel,
        _ => panic!("expected a selection"),
    };
    let outcome = update_task(&sel, FetchOutcome::Page(one_unanswered_page()), &mut store, now);
    assert!(matches!(outcome, TaskOutcome::Completed));
    assert_eq!(store.comments.len(), 1);
    let stored = &store.comments[0];
    assert_eq!(stored.user_id, user_id);
    assert_eq!(stored.article_id, article_id);
    assert_eq!(stored.content, "lovely article");
    assert_eq!(
        stored.date,
        DateTime { year: 2024, month: 8, day: 24, hour: 3, minute: 12 }
    );
    // The author resolved to the upserted identity.
    let author = store
        .wa_users
        .iter()
        .find(|u| u.worldanvil_id.as_deref() == Some("d05d748e-57d9-42f6-80fc-eff50fabda50"))
        .unwrap();
    assert_eq!(stored.author_id, Some(author.id));
    assert_eq!(author.name, "Tyrdal");
}

#[test]
fn test_cycle_system_error_leaves_task_pending() {
    let now = 10 * DAY;
    let (mut store, _user_id, _article_id) = cycle_store(now);
    let sel = match update_task_begin(&mut store, now) {
        CycleStep::Fetch(sel) => sel,
        _ => panic!("expected a selection"),
    };
    let task_id = sel.task.id;
    let outcome = update_task(
        &sel,
        FetchOutcome::FetchFailed("connection refused".to_string()),
        &mut store,
        now,
    );
    match outcome {
        TaskOutcome::Error(te) => {
            assert!(te.unhandled);
            assert_eq!(te.task_id, task_id);
        },
        _ => panic!("expected a system error"),
    }
    // The task is untouched: pending and unlocked, no error recorded.
    let row = &store.tasks[0];
    assert!(!row.done);
    assert!(!row.locked);
    assert!(row.error.is_none());
    // The cooldown clock was not restarted, so a later cycle (here: any
    // time the cooldown allows) picks the same task up again.
    match update_task_begin(&mut store, now) {
        CycleStep::Fetch(sel2) => assert_eq!(sel2.task.id, task_id),
        _ => panic!("expected the same task to be selectable again"),
    }
}

#[test]
fn test_cycle_domain_error_is_terminal() {
    let now = 10 * DAY;
    let (mut store, _user_id, _article_id) = cycle_store(now);
    let sel = match update_task_begin(&mut store, now) {
        CycleStep::Fetch(sel) => sel,
        _ => panic!("expected a selection"),
    };
    let outcome = update_task(
        &sel,
        FetchOutcome::Page("<html><body><p>layout changed</p></body></html>".to_string()),
        &mut store,
        now,
    );
    match outcome {
        TaskOutcome::Error(te) => {
            assert!(!te.unhandled);
            assert_eq!(te.message, "could not find #visual-container");
        },
        _ => panic!("expected a domain error"),
    }
    // The error is recorded terminally on the task.
    let row = &store.tasks[0];
    assert!(row.done);
    assert_eq!(row.error, Some(true));
    assert_eq!(
        row.error_msg.as_deref(),
        Some("could not find #visual-container")
    );
    assert!(!row.locked);
    // The cooldown was restarted and no pending task remains, so the next
    // pass finds no user, even long after the cooldown.
    assert!(matches!(
        update_task_begin(&mut store, now + DAY),
        CycleStep::NoUser
    ));
}

#[test]
fn test_no_user_when_queue_empty() {
    let mut store = Store::new();
    assert!(matches!(update_task_begin(&mut store, 0), CycleStep::NoUser));
}

fn root(author_uuid: &str, content: &str, replies: usize) -> RootComment {
    let c = Comment {
        index: 0,
        author_avatar: "/a.png".to_string(),
        author_name: "someone".to_string(),
        comment_datetime: DateTime { year: 2024, month: 8, day: 24, hour: 3, minute: 12 },
        content: content.to_string(),
    };
    let mut reply_list = Vec::new();
    for _ in 0..replies {
        reply_list.push(c.clone());
    }
    RootComment {
        comment: c,
        author_worldanvil_id: author_uuid.to_string(),
        replies: reply_list,
    }
}

/// Comment replacement is exact: of an unanswered comment with a resolved
/// author, an answered one, and an unanswered one with an unresolved
/// author, exactly the first yields an insert.
#[test]
fn test_eligible_comments_exact() {
    let c1 = root("author-one", "keep me", 0);
    let c2 = root("author-two", "answered", 1);
    let c3 = root("author-three", "unresolved", 0);
    let pairs: Vec<(i64, Option<String>)> = vec![
        (10, Some("author-one".to_string())),
        (11, Some("author-two".to_string())),
    ];
    let inserts = eligible_comments(&vec![c1, c2, c3], &pairs, 7, 40);
    assert_eq!(inserts.len(), 1);
    assert_eq!(inserts[0].content, "keep me");
    assert_eq!(inserts[0].author_id, 10);
    assert_eq!(inserts[0].user_id, 7);
    assert_eq!(inserts[0].article_id, 40);
}

#[test]
fn test_find_comments_without_replies() {
    let comments = vec![
        root("a", "x", 0),
        root("b", "y", 2),
        root("c", "z", 0),
    ];
    assert_eq!(find_comments_without_replies(&comments), vec![0, 2]);
}

#[test]
fn test_into_parse_error() {
    match ParseError::NoHeader.into_parse_error(7, 42) {
        TaskOutcome::Error(te) => {
            assert!(!te.unhandled);
            assert_eq!(te.message, "could not find #content .article-title h1");
            assert_eq!(te.user_queue_id, 7);
            assert_eq!(te.task_id, 42);
        },
        _ => panic!("expected an error outcome"),
    }
}
