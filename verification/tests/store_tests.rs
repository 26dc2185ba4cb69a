use threedots::comment::{new_comment, Comment, CommentRequest, ContentType, NewComment};
use threedots::database::{canonicalize, init, init_with_ids, migration_sql, CommentRow, PageRow, Store};
use threedots::error::Error;

fn migrated_store() -> Store {
    let mut store = Store::new();
    init(&mut store).unwrap();
    assert_eq!(store.version, 3);
    store
}

#[test]
fn canonicalize_strips_trailing_slashes() {
    assert_eq!(canonicalize("https://example.com/post/"), "https://example.com/post");
    assert_eq!(canonicalize("https://example.com/post//"), "https://example.com/post");
    assert_eq!(canonicalize("https://example.com/post"), "https://example.com/post");
    assert_eq!(canonicalize(""), "");
    assert_eq!(canonicalize("///"), "");
}

#[test]
fn listing_an_empty_store_yields_nothing() {
    let store = migrated_store();
    let request = CommentRequest { page_url: String::from("https://example.com/post") };
    let comments = store.list_comments(&request.page_url);
    assert!(comments.is_empty());
}

#[test]
fn a_comment_is_built_from_exactly_its_columns() {
    let c = Comment::from_row(
        String::from("some-id"),
        String::from("ada"),
        42,
        String::from("<p>x</p>"),
        String::from("https://example.com/a"),
    );
    assert_eq!(c.id, "some-id");
    assert_eq!(c.author, "ada");
    assert_eq!(c.date, 42);
    assert_eq!(c.content, "<p>x</p>");
    assert_eq!(c.page_url, "https://example.com/a");
}

#[test]
fn ensure_page_creates_exactly_one_row_per_url() {
    let mut store = migrated_store();
    let a = store.ensure_page("https://example.com/post").unwrap();
    let b = store.ensure_page("https://example.com/post/").unwrap();
    let c = store.ensure_page("https://example.com/post").unwrap();
    assert_eq!(a, b);
    assert_eq!(a, c);
    assert_eq!(store.pages.len(), 1);
    assert_eq!(store.pages[0].url, "https://example.com/post");
    let other = store.ensure_page("https://example.com/other").unwrap();
    assert_ne!(a, other);
    assert_eq!(store.pages.len(), 2);
}

#[test]
fn inserted_comment_round_trips_through_listing() {
    let mut store = migrated_store();
    let req = NewComment {
        author: String::from("ada"),
        content: String::from("<b>hi</b>"),
        content_type: ContentType::Plain,
        page_url: String::from("https://example.com/post/"),
    };
    let created = new_comment(&mut store, &req).unwrap();
    assert_eq!(created.author, "ada");
    assert_eq!(created.content, "<p>&lt;b&gt;hi&lt;/b&gt;</p>");
    assert_eq!(created.page_url, "https://example.com/post");
    assert_eq!(created.id.len(), 36);
    assert!(created.date > 0);

    let listed = store.list_comments("https://example.com/post");
    assert_eq!(listed.len(), 1);
    assert_eq!(listed[0].author, "ada");
    assert_eq!(listed[0].content, "<p>&lt;b&gt;hi&lt;/b&gt;</p>");
    assert_eq!(listed[0].id, created.id);
    assert_eq!(listed[0].date, created.date);
    assert_eq!(listed[0].page_url, "https://example.com/post");

    // the same page queried under its uncanonicalized URL
    let listed_slash = store.list_comments("https://example.com/post/");
    assert_eq!(listed_slash.len(), 1);

    let elsewhere = store.list_comments("https://example.com/other");
    assert!(elsewhere.is_empty());
}

#[test]
fn listing_keeps_insertion_order() {
    let mut store = migrated_store();
    let pid = store.ensure_page("https://example.com/post").unwrap();
    let first = store.insert_comment("ada", "<p>one</p>", pid).unwrap();
    let second = store.insert_comment("bob", "<p>two</p>", pid).unwrap();
    assert_ne!(first.id, second.id);
    let listed = store.list_comments("https://example.com/post");
    assert_eq!(listed.len(), 2);
    assert_eq!(listed[0].author, "ada");
    assert_eq!(listed[1].author, "bob");
}

#[test]
fn stored_html_comment_is_sanitized() {
    let mut store = migrated_store();
    let req = NewComment {
        author: String::from("mallory"),
        content: String::from("<img src=x><a href='javascript:1'>go</a>"),
        content_type: ContentType::Html,
        page_url: String::from("https://example.com/post"),
    };
    let created = new_comment(&mut store, &req).unwrap();
    assert!(!created.content.contains("<img"));
    assert!(!created.content.contains("javascript"));
    let listed = store.list_comments("https://example.com/post");
    assert_eq!(listed[0].content, created.content);
}

#[test]
fn client_supplied_identifier_collision_is_rejected() {
    let mut store = migrated_store();
    let pid = store.ensure_page("https://example.com/post").unwrap();
    let ok = store
        .insert_comment_with("ada", "<p>x</p>", pid, String::from("fixed-id"), 7)
        .unwrap();
    assert_eq!(ok.id, "fixed-id");
    assert_eq!(ok.date, 7);
    let again = store.insert_comment_with("bob", "<p>y</p>", pid, String::from("fixed-id"), 8);
    assert!(again.is_err());
    assert_eq!(store.comments.len(), 1);
}

#[test]
fn page_id_exhaustion_surfaces_as_an_error() {
    let mut store = Store {
        version: 3,
        pages: vec![PageRow { id: i64::MAX, url: String::from("https://example.com/a") }],
        comments: vec![],
    };
    let existing = store.ensure_page("https://example.com/a").unwrap();
    assert_eq!(existing, i64::MAX);
    assert!(store.ensure_page("https://example.com/b").is_err());
    assert_eq!(store.pages.len(), 1);
}

#[test]
fn error_carries_its_message() {
    let e = Error::new("something failed");
    assert_eq!(e.message(), "something failed");
}

#[test]
fn migration_from_empty_reaches_final_version() {
    let mut store = Store::new();
    assert_eq!(store.version, 0);
    init(&mut store).unwrap();
    assert_eq!(store.version, 3);
    assert!(store.pages.is_empty());
    assert!(store.comments.is_empty());
}

#[test]
fn migration_is_idempotent() {
    let mut store = Store::new();
    init(&mut store).unwrap();
    let pages_before = store.pages.len();
    let comments_before = store.comments.len();
    init(&mut store).unwrap();
    assert_eq!(store.version, 3);
    assert_eq!(store.pages.len(), pages_before);
    assert_eq!(store.comments.len(), comments_before);
}

#[test]
fn migration_preserves_rows_from_the_oldest_schema() {
    let mut store = Store {
        version: 1,
        pages: vec![
            PageRow { id: 4, url: String::from("https://example.com/a") },
            PageRow { id: 9, url: String::from("https://example.com/b") },
        ],
        comments: vec![
            CommentRow {
                date: 100,
                author: String::from("ada"),
                content: String::from("<p>first</p>"),
                content_type: Some(0),
                page_id: 4,
                id: None,
            },
            CommentRow {
                date: 200,
                author: String::from("bob"),
                content: String::from("<p>second</p>"),
                content_type: Some(1),
                page_id: 9,
                id: None,
            },
        ],
    };
    init(&mut store).unwrap();
    assert_eq!(store.version, 3);
    assert_eq!(store.comments.len(), 2);
    assert_eq!(store.comments[0].author, "ada");
    assert_eq!(store.comments[0].date, 100);
    assert_eq!(store.comments[0].content, "<p>first</p>");
    assert_eq!(store.comments[0].page_id, 4);
    assert_eq!(store.comments[0].content_type, None);
    assert_eq!(store.comments[1].content_type, None);
    let id0 = store.comments[0].id.clone().unwrap();
    let id1 = store.comments[1].id.clone().unwrap();
    assert_eq!(id0.len(), 36);
    assert_ne!(id0, id1);
    // the backfilled store serves reads immediately
    let listed = store.list_comments("https://example.com/a");
    assert_eq!(listed.len(), 1);
    assert_eq!(listed[0].author, "ada");

    // a second run changes nothing, ids included
    init(&mut store).unwrap();
    assert_eq!(store.comments[0].id.clone().unwrap(), id0);
    assert_eq!(store.comments[1].id.clone().unwrap(), id1);
}

#[test]
fn migration_from_the_middle_version_only_backfills() {
    let mut store = Store {
        version: 2,
        pages: vec![PageRow { id: 1, url: String::from("https://example.com/a") }],
        comments: vec![CommentRow {
            date: 5,
            author: String::from("ada"),
            content: String::from("<p>x</p>"),
            content_type: None,
            page_id: 1,
            id: None,
        }],
    };
    init(&mut store).unwrap();
    assert_eq!(store.version, 3);
    assert_eq!(store.pages.len(), 1);
    assert!(store.comments[0].id.is_some());
}

fn two_row_store_at_version_one() -> Store {
    Store {
        version: 1,
        pages: vec![PageRow { id: 1, url: String::from("https://example.com/a") }],
        comments: vec![
            CommentRow {
                date: 1,
                author: String::from("ada"),
                content: String::from("<p>x</p>"),
                content_type: Some(0),
                page_id: 1,
                id: None,
            },
            CommentRow {
                date: 2,
                author: String::from("bob"),
                content: String::from("<p>y</p>"),
                content_type: Some(1),
                page_id: 1,
                id: None,
            },
        ],
    }
}

#[test]
fn backfill_accepts_exactly_distinct_identifiers_one_per_row() {
    let mut store = two_row_store_at_version_one();
    let colliding = vec![String::from("same"), String::from("same")];
    assert!(init_with_ids(&mut store, &colliding).is_err());
    assert_eq!(store.version, 2);
    assert!(store.comments[0].id.is_none());

    let short = vec![String::from("only-one")];
    assert!(init_with_ids(&mut store, &short).is_err());
    assert_eq!(store.version, 2);

    let good = vec![String::from("first-id"), String::from("second-id")];
    init_with_ids(&mut store, &good).unwrap();
    assert_eq!(store.version, 3);
    assert_eq!(store.comments[0].id.as_deref(), Some("first-id"));
    assert_eq!(store.comments[1].id.as_deref(), Some("second-id"));
}

#[test]
fn migration_sql_exists_for_exactly_the_three_steps() {
    assert!(migration_sql(0).is_none());
    let base = migration_sql(1).unwrap();
    assert!(base.contains("CREATE TABLE pages"));
    assert!(base.contains("CREATE TABLE comments"));
    assert!(base.contains("CREATE INDEX comments_by_page"));
    let drop_kind = migration_sql(2).unwrap();
    assert!(drop_kind.contains("DROP COLUMN content_type"));
    let add_id = migration_sql(3).unwrap();
    assert!(add_id.contains("ADD COLUMN id"));
    assert!(add_id.contains("UNIQUE INDEX comments_id"));
    assert!(migration_sql(4).is_none());
}
