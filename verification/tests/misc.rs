use commentater::article::{get_article_ids, get_articles_and_status, get_unqueued_article_ids, register_article};
use commentater::auth::UserState;
use commentater::datetime::{days_in_month, DateTime};
use commentater::err::AppError;
use commentater::queue::{complete_task, get_next_task, insert_tasks, release_task_lock};
use commentater::req::check_url_valid;
use commentater::routes::login::ApiKeyForm;
use commentater::schema::{Comment, RawArticleAndStatus};
use commentater::store::{Store, StoreError};
use commentater::test_queries::add_test_data;
use commentater::user::get_user;
use commentater::world::{get_world, get_worlds};
use commentater::worldanvil_api::{
    absorb_article_page, classify_identity_status, split_article_fields, Article, Date,
    EntityClass, IdentityStatusKind, State, SubscriberGroup,
};

fn api_article(id: &str, url: &str, draft: bool) -> Article {
    Article {
        id: id.to_string(),
        title: format!("title of {id}"),
        slug: "slug".to_string(),
        state: State::Public,
        is_wip: false,
        is_draft: draft,
        entity_class: EntityClass::Article,
        icon: "fas fa-image fa-fw".to_string(),
        url: url.to_string(),
        folder_id: "cb66dac7-5818-440a-b6cf-5797d2c20729".to_string(),
        tags: None,
        update_date: Date {
            date: "2024-09-02 10:48:03.000000".to_string(),
            timezone_type: 3,
            timezone: "Europe/London".to_string(),
        },
        subscribergroups: vec![SubscriberGroup {}],
        position: None,
    }
}

#[test]
fn test_absorb_article_page_filters_drafts_and_detects_end() {
    let mut items = Vec::new();
    let page = vec![
        api_article("one", "https://example.invalid/1", false),
        api_article("two", "https://example.invalid/2", true),
        api_article("three", "https://example.invalid/3", false),
    ];
    let done = absorb_article_page(&mut items, page);
    assert!(done);
    assert_eq!(items.len(), 2);
    assert_eq!(items[0].id, "one");
    assert_eq!(items[1].id, "three");
}

#[test]
fn test_split_article_fields() {
    let articles = vec![
        api_article("a-id", "https://example.invalid/a", false),
        api_article("b-id", "https://example.invalid/b", false),
    ];
    let (urls, titles, ids) = split_article_fields(articles);
    assert_eq!(urls, vec!["https://example.invalid/a", "https://example.invalid/b"]);
    assert_eq!(titles, vec!["title of a-id", "title of b-id"]);
    assert_eq!(ids, vec!["a-id", "b-id"]);
}

#[test]
fn test_classify_identity_status() {
    assert_eq!(classify_identity_status(200), IdentityStatusKind::Identified);
    assert_eq!(classify_identity_status(401), IdentityStatusKind::NotIdentified);
    assert_eq!(classify_identity_status(500), IdentityStatusKind::Unexpected);
}

#[test]
fn test_check_url_valid() {
    assert!(check_url_valid("https://worldanvil.com/w/solaris").is_ok());
    assert!(matches!(
        check_url_valid("https://example.com/w/solaris"),
        Err(AppError::BadRequest(_))
    ));
    assert!(matches!(
        check_url_valid("not a url"),
        Err(AppError::BadRequest(_))
    ));
}

#[test]
fn test_app_error_messages() {
    assert_eq!(
        AppError::from_sql("article", &42, StoreError::NotFound).message(),
        "not found"
    );
    assert_eq!(
        AppError::BadRequest("Url is missing domain".to_string()).message(),
        "bad request: Url is missing domain"
    );
    assert_eq!(
        AppError::InternalError("storage failure".to_string()).message(),
        "internal error: storage failure"
    );
}

#[test]
fn test_days_in_month_and_validity() {
    assert_eq!(days_in_month(2024, 2), 29);
    assert_eq!(days_in_month(2023, 2), 28);
    assert_eq!(days_in_month(1900, 2), 28);
    assert_eq!(days_in_month(2000, 2), 29);
    assert_eq!(days_in_month(2024, 4), 30);
    assert!(DateTime { year: 2024, month: 2, day: 29, hour: 0, minute: 0 }.is_valid());
    assert!(!DateTime { year: 2023, month: 2, day: 29, hour: 0, minute: 0 }.is_valid());
}

#[test]
fn test_comment_key() {
    let date = DateTime { year: 2024, month: 8, day: 24, hour: 3, minute: 12 };
    let c = Comment {
        id: 1,
        user_id: 7,
        author_id: Some(3),
        article_id: 40,
        content: "hi".to_string(),
        date,
        starred: false,
        deleted: false,
    };
    assert_eq!(c.key(), Some((3, date)));
    let anon = Comment { author_id: None, ..c };
    assert_eq!(anon.key(), None);
}

#[test]
fn test_into_article_and_status() {
    let raw = RawArticleAndStatus {
        article_id: 40,
        title: "Chewpaper".to_string(),
        url: "https://example.invalid/a".to_string(),
        last_checked: Some(123),
        done: Some(true),
        error: Some(false),
        error_msg: None,
        unanswered_comments: None,
    };
    let row = raw.into_article_and_status();
    assert_eq!(row.article_id, 40);
    assert_eq!(row.unanswered_comments, 0);
    let status = row.status.unwrap();
    assert!(status.done);
    assert_eq!(status.error, Some(false));

    let raw = RawArticleAndStatus {
        article_id: 41,
        title: "Other".to_string(),
        url: "https://example.invalid/b".to_string(),
        last_checked: None,
        done: None,
        error: None,
        error_msg: None,
        unanswered_comments: Some(3),
    };
    let row = raw.into_article_and_status();
    assert!(row.status.is_none());
    assert_eq!(row.unanswered_comments, 3);
}

#[test]
fn test_add_test_data_seeds_everything() {
    let mut store = Store::new();
    add_test_data(&mut store, "testkey", 1000).unwrap();
    assert_eq!(store.wa_users.len(), 1);
    assert_eq!(store.users.len(), 1);
    assert_eq!(store.user_queue.len(), 1);
    assert_eq!(store.worlds.len(), 1);
    assert_eq!(store.articles.len(), 2);
    let uid = store.users[0].id;
    let user = get_user(&store, &uid).unwrap();
    assert_eq!(user.worldanvil_id, "225bd01d-124c-4aa2-885b-0fc4bdf41bd8");
    let worlds = get_worlds(&store, &user.id);
    assert_eq!(worlds.len(), 1);
    assert_eq!(worlds[0].name, "Solaris");
    let world = get_world(&store, &user.id, &worlds[0].id).unwrap();
    assert_eq!(world.worldanvil_id, "e69d6a36-2d22-4bf2-80f9-456a9b0d909e");
}

#[test]
fn test_article_ids_and_unqueued() {
    let mut store = Store::new();
    let a1 = register_article(7, 9, "https://example.invalid/1", &mut store).unwrap();
    let a2 = register_article(7, 9, "https://example.invalid/2", &mut store).unwrap();
    let other = register_article(8, 9, "https://example.invalid/3", &mut store).unwrap();
    assert_eq!(get_article_ids(&store, &7, &9), vec![a1, a2]);
    assert_eq!(get_article_ids(&store, &8, &9), vec![other]);
    // With nothing queued, both articles are enqueueable.
    assert_eq!(get_unqueued_article_ids(&store, &7, &9), vec![a1, a2]);
    insert_tasks(&7, &[a1], &mut store).unwrap();
    assert_eq!(get_unqueued_article_ids(&store, &7, &9), vec![a2]);
    // Completing the pending task frees the article again.
    let t = get_next_task(&7, &mut store).unwrap();
    complete_task(t.id, None, &mut store);
    release_task_lock(t.id, &mut store);
    assert_eq!(get_unqueued_article_ids(&store, &7, &9), vec![a1, a2]);
}

#[test]
fn test_articles_and_status_order() {
    let mut store = Store::new();
    let a1 = register_article(7, 9, "https://example.invalid/1", &mut store).unwrap();
    let a2 = register_article(7, 9, "https://example.invalid/2", &mut store).unwrap();
    insert_tasks(&7, &[a1], &mut store).unwrap();
    let t = get_next_task(&7, &mut store).unwrap();
    complete_task(t.id, Some("could not find .page-article-main"), &mut store);
    commentater::comments::insert_comments(
        &mut store,
        a2,
        7,
        vec![commentater::schema::CommentInsert {
            user_id: 7,
            author_id: 1,
            article_id: a2,
            content: "hello".to_string(),
            date: DateTime { year: 2024, month: 8, day: 24, hour: 3, minute: 12 },
        }],
    )
    .unwrap();
    let rows = get_articles_and_status(&7, &9, &store);
    assert_eq!(rows.len(), 2);
    // The article with a comment sorts first.
    assert_eq!(rows[0].article_id, a2);
    assert_eq!(rows[0].unanswered_comments, 1);
    assert!(rows[0].status.is_none());
    assert_eq!(rows[1].article_id, a1);
    assert_eq!(rows[1].unanswered_comments, 0);
    let status = rows[1].status.as_ref().unwrap();
    assert!(status.done);
    assert_eq!(status.error, Some(true));
    assert_eq!(
        status.error_msg.as_deref(),
        Some("could not find .page-article-main")
    );
}

#[test]
fn test_user_state() {
    let signed_in = UserState { user_id: Some(5), user_name: Some("nnie".to_string()) };
    assert!(signed_in.logged_in());
    assert_eq!(signed_in.username(), "nnie");
    let anonymous = UserState { user_id: None, user_name: None };
    assert!(!anonymous.logged_in());
    assert_eq!(anonymous.username(), "");
    assert_eq!(UserState::session_key(), "USER_STATE");
    let form = ApiKeyForm { api_key: "k".to_string() };
    assert_eq!(form.api_key, "k");
}
