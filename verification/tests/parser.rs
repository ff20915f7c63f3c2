use commentater::datetime::DateTime;
use commentater::parser::{
    find_class_with_prefix, parse_date, parse_extracted, parse_page, ParseError, RawCommentBlock,
    RawPage,
};

fn comment_box_html(author: &str, author_uuid: &str, date: &str, body: &str, replies: &str) -> String {
    format!(
        "<div class=\"comment-box comment-author-{uuid}\"><span class=\"uss-css-user-username\">{author}</span><div class=\"comment-box-avatar\"><img class=\"img-avatar\" src=\"/avatars/{author}.png\"></div><div class=\"comment-box-date\"> {date} </div><div class=\"comment-box-content\"><p>{body}</p></div>{replies}</div>",
        uuid = author_uuid,
        author = author,
        date = date,
        body = body,
        replies = replies,
    )
}

fn reply_box_html(author: &str, date: &str, body: &str) -> String {
    format!(
        "<div class=\"comment-box-reply\"><span class=\"uss-css-user-username\">{author}</span><div class=\"comment-box-avatar\"><img class=\"img-avatar\" src=\"/avatars/{author}.png\"></div><div class=\"comment-box-date\"> {date} </div><div class=\"comment-box-content\"><p>{body}</p></div></div>",
        author = author,
        date = date,
        body = body,
    )
}

fn example_page(comments: &str) -> String {
    format!(
        "<html><body><div id=\"visual-container\" class=\"vis world-e69d6a36-2d22-4bf2-80f9-456a9b0d909e\"><div id=\"content\"><div class=\"article-title\"><h1> Chewpaper </h1></div><div class=\"page-article-main article-4cdfec2c-b875-4dc6-b5c9-146470e9ac80\">article text</div>{comments}</div></div></body></html>",
        comments = comments,
    )
}

/// The fixture used throughout: three root comments, each with exactly one
/// reply by nnie.
fn example_solaris_page() -> String {
    let authors = [
        ("Tyrdal", "d05d748e-57d9-42f6-80fc-eff50fabda50"),
        ("CoolG1319", "b51561d7-f49f-4493-85b1-5f5b2ff4c243"),
        ("skairunner", "9fe45c42-cb7e-47f0-bfb0-bd98762dda16"),
    ];
    let mut comments = String::new();
    for (author, uuid) in authors.iter() {
        let reply = reply_box_html("nnie", "Aug 25, 2024 10:00", "thanks!");
        comments.push_str(&comment_box_html(
            author,
            uuid,
            "Aug 24, 2024 03:12",
            "lovely article",
            &reply,
        ));
    }
    example_page(&comments)
}

#[test]
fn test_parse_date() {
    assert_eq!(
        parse_date("Aug 24, 2024 03:12"),
        Ok(DateTime { year: 2024, month: 8, day: 24, hour: 3, minute: 12 })
    )
}

#[test]
fn test_parse_date_single_digit_day() {
    assert_eq!(
        parse_date("Jan 7, 0999 23:59"),
        Ok(DateTime { year: 999, month: 1, day: 7, hour: 23, minute: 59 })
    )
}

#[test]
fn test_parse_date_rejects_bad_input() {
    assert!(parse_date("Feb 30, 2024 10:00").is_err());
    assert!(parse_date("Aug 24, 2024 24:00").is_err());
    assert!(parse_date("Aug 24, 2024 03:60").is_err());
    assert!(parse_date("aug 24, 2024 03:12").is_err());
    assert!(parse_date("Aug 24, 2024 03:12 ").is_err());
    assert!(parse_date("").is_err());
}

#[test]
fn test_find_class_with_prefix() {
    assert_eq!(
        find_class_with_prefix(
            "vis world-e69d6a36-2d22-4bf2-80f9-456a9b0d909e",
            "world"
        ),
        Some("e69d6a36-2d22-4bf2-80f9-456a9b0d909e".to_string())
    );
    assert_eq!(
        find_class_with_prefix("vis world-e69d6a36-2d22-4bf2-80f9-456a9b0d909e", "article"),
        None
    );
    assert_eq!(find_class_with_prefix("", "world"), None);
    assert_eq!(
        find_class_with_prefix("world-e69d6a36-2d22-4bf2-80f9_456a9b0d909e", "world"),
        None
    );
}

#[test]
fn test_parse_page() {
    let fixture = example_solaris_page();
    let article = parse_page(&fixture).unwrap();
    assert_eq!(article.title, "Chewpaper");
    assert_eq!(
        article.world_worldanvil_id,
        "e69d6a36-2d22-4bf2-80f9-456a9b0d909e"
    );
    assert_eq!(
        article.worldanvil_id,
        "4cdfec2c-b875-4dc6-b5c9-146470e9ac80"
    );
    let expected_authors = vec![
        ("Tyrdal", "d05d748e-57d9-42f6-80fc-eff50fabda50"),
        ("CoolG1319", "b51561d7-f49f-4493-85b1-5f5b2ff4c243"),
        ("skairunner", "9fe45c42-cb7e-47f0-bfb0-bd98762dda16"),
    ];
    assert_eq!(article.comments.len(), 3);
    for ((expected_author, expected_id), comment) in
        expected_authors.iter().zip(&article.comments)
    {
        assert_eq!(*expected_author, comment.comment.author_name);
        assert_eq!(*expected_id, comment.author_worldanvil_id);
        assert_eq!(comment.replies.len(), 1);
        assert_eq!(comment.replies[0].author_name, "nnie");
    }
}

#[test]
fn test_parse_page_missing_visual_container() {
    let r = parse_page("<html><body><p>nothing here</p></body></html>");
    assert_eq!(r.unwrap_err(), ParseError::NoVisualContainer);
}

fn good_block() -> RawCommentBlock {
    RawCommentBlock {
        class_attr: Some("comment-box comment-author-d05d748e-57d9-42f6-80fc-eff50fabda50".to_string()),
        author_name: Some(vec!["Tyrdal".to_string()]),
        avatar_src: Some("/avatars/Tyrdal.png".to_string()),
        date_text: Some(vec![" Aug 24, 2024 03:12 ".to_string()]),
        content: Some(vec!["  first line ".to_string(), " second line ".to_string()]),
        replies: Vec::new(),
    }
}

fn good_raw_page() -> RawPage {
    RawPage {
        visual_container: Some(Some(
            "vis world-e69d6a36-2d22-4bf2-80f9-456a9b0d909e".to_string(),
        )),
        title: Some(vec![" Chew".to_string(), "paper ".to_string()]),
        article_main: Some(Some(
            "page-article-main article-4cdfec2c-b875-4dc6-b5c9-146470e9ac80".to_string(),
        )),
        comment_boxes: vec![good_block()],
    }
}

#[test]
fn test_parse_extracted_exact() {
    let article = parse_extracted(&good_raw_page()).unwrap();
    assert_eq!(article.title, "Chewpaper");
    assert_eq!(article.world_worldanvil_id, "e69d6a36-2d22-4bf2-80f9-456a9b0d909e");
    assert_eq!(article.worldanvil_id, "4cdfec2c-b875-4dc6-b5c9-146470e9ac80");
    assert_eq!(article.comments.len(), 1);
    let c = &article.comments[0];
    assert_eq!(c.comment.author_name, "Tyrdal");
    assert_eq!(c.comment.content, "first line\nsecond line");
    assert_eq!(
        c.comment.comment_datetime,
        DateTime { year: 2024, month: 8, day: 24, hour: 3, minute: 12 }
    );
    assert_eq!(c.author_worldanvil_id, "d05d748e-57d9-42f6-80fc-eff50fabda50");
    assert_eq!(c.replies.len(), 0);
}

#[test]
fn test_parse_extracted_errors_in_order() {
    let mut raw = good_raw_page();
    raw.title = None;
    assert_eq!(parse_extracted(&raw).unwrap_err(), ParseError::NoHeader);

    let mut raw = good_raw_page();
    raw.visual_container = Some(None);
    assert_eq!(parse_extracted(&raw).unwrap_err(), ParseError::NoClassAttribute);

    let mut raw = good_raw_page();
    raw.article_main = None;
    assert_eq!(parse_extracted(&raw).unwrap_err(), ParseError::NoPageArticleMain);

    let mut raw = good_raw_page();
    raw.visual_container = Some(Some("vis".to_string()));
    assert_eq!(
        parse_extracted(&raw).unwrap_err(),
        ParseError::NoClassWithPrefix("world".to_string())
    );

    let mut raw = good_raw_page();
    raw.comment_boxes[0].date_text = Some(vec![" not a date ".to_string()]);
    assert_eq!(
        parse_extracted(&raw).unwrap_err(),
        ParseError::InvalidDate("not a date".to_string())
    );

    let mut raw = good_raw_page();
    raw.comment_boxes[0].author_name = None;
    assert_eq!(parse_extracted(&raw).unwrap_err(), ParseError::NoAuthorName);
}

#[test]
fn test_parse_error_message() {
    assert_eq!(
        ParseError::NoVisualContainer.message(),
        "could not find #visual-container"
    );
    assert_eq!(
        ParseError::NoClassWithPrefix("world".to_string()).message(),
        "could not find a class starting with 'world'"
    );
    assert_eq!(
        ParseError::InvalidDate("xyz".to_string()).message(),
        "invalid date xyz"
    );
}
