use base64::Engine;
use book_writer_chat::books::BookWorkspace;
use book_writer_chat::database::Revision;
use book_writer_chat::models::{BookLanguage, BookStatus, RevisionRenderStatus};
use book_writer_chat::reader::{
    check_readable_revision, decode_cursor, encode_cursor, reported_render_error,
    reported_render_status, requested_chapter_index, rewrite_reader_asset_urls,
    synthetic_workspace_revision, workspace_book, ChapterCursor, ChapterRequestError,
};
use book_writer_chat::render::{RenderedBook, RenderedChapter};

fn chapter(id: &str) -> RenderedChapter {
    RenderedChapter {
        id: id.to_string(),
        kind: "chapter".to_string(),
        title: id.to_string(),
        source_file: format!("content/chapters/{id}.md"),
        html: String::new(),
    }
}

fn book() -> RenderedBook {
    RenderedBook {
        title: "T".to_string(),
        subtitle: "S".to_string(),
        theme: "classic-readable".to_string(),
        chapters: vec![chapter("title-page"), chapter("chapter-1"), chapter("chapter-1")],
        full_html: String::new(),
        content_hash: String::new(),
    }
}

#[test]
fn cursors_travel_as_url_safe_base64_json() {
    let cursor = ChapterCursor { revision_id: "revision-7".to_string(), chapter_index: 2 };
    let encoded = encode_cursor(&cursor);
    assert_eq!(
        encoded,
        base64::engine::general_purpose::URL_SAFE_NO_PAD
            .encode(br#"{"revision_id":"revision-7","chapter_index":2}"#)
    );
    assert!(encoded.chars().all(|c| c.is_ascii_alphanumeric() || c == '-' || c == '_'));
    let decoded = decode_cursor(&encoded).unwrap();
    let value: serde_json::Value = serde_json::from_slice(&decoded).unwrap();
    assert_eq!(value["revision_id"], "revision-7");
    assert_eq!(value["chapter_index"], 2);
    assert_eq!(decode_cursor("***"), None);
}

#[test]
fn chapter_requests_resolve_cursor_then_id_then_first() {
    let book = book();
    let current = ChapterCursor { revision_id: "revision-2".to_string(), chapter_index: 1 };
    assert_eq!(requested_chapter_index(&book, Some(Ok(current)), None, "revision-2"), Ok(1));
    let stale = ChapterCursor { revision_id: "revision-1".to_string(), chapter_index: 1 };
    assert_eq!(
        requested_chapter_index(&book, Some(Ok(stale)), Some("title-page"), "revision-2"),
        Err(ChapterRequestError::StaleRevision)
    );
    assert_eq!(
        requested_chapter_index(&book, Some(Err("bad cursor".to_string())), None, "revision-2"),
        Err(ChapterRequestError::InvalidCursor { message: "bad cursor".to_string() })
    );
    assert_eq!(requested_chapter_index(&book, None, Some("chapter-1"), "r"), Ok(1));
    assert_eq!(
        requested_chapter_index(&book, None, Some("missing"), "r"),
        Err(ChapterRequestError::ChapterNotFound)
    );
    assert_eq!(requested_chapter_index(&book, None, None, "r"), Ok(0));
}

#[test]
fn chapter_request_errors_map_to_http_answers() {
    assert_eq!(
        ChapterRequestError::StaleRevision.response_parts(),
        (409, "stale_revision", "The requested cursor belongs to an older revision.".to_string())
    );
    assert_eq!(
        ChapterRequestError::ChapterNotFound.response_parts(),
        (404, "chapter_not_found", "Requested chapter was not found.".to_string())
    );
    assert_eq!(
        ChapterRequestError::InvalidCursor { message: "m".to_string() }.response_parts(),
        (400, "invalid_cursor", "m".to_string())
    );
}

#[test]
fn asset_urls_point_at_the_reader_endpoint() {
    let html = r#"<img src="assets/images/a.png"><img src='/assets/images/b.png'><img src="https://x/y.png">"#;
    assert_eq!(
        rewrite_reader_asset_urls(html, "book-1"),
        r#"<img src="/api/reader/book-1/assets/assets/images/a.png"><img src='/api/reader/book-1/assets/assets/images/b.png'><img src="https://x/y.png">"#
    );
    assert_eq!(rewrite_reader_asset_urls("no images", "b"), "no images");
}

fn revision(status: RevisionRenderStatus) -> Revision {
    Revision {
        revision_id: "revision-3".to_string(),
        book_id: "b".to_string(),
        job_id: "job-2".to_string(),
        summary: "render broke".to_string(),
        created_at: 7,
        render_status: status,
    }
}

#[test]
fn workspace_only_books_get_a_synthetic_revision() {
    let workspace = BookWorkspace {
        book_id: "quiet".to_string(),
        slug: "quiet".to_string(),
        title: "Quiet".to_string(),
        subtitle: "S".to_string(),
        language: BookLanguage::English,
        workspace_path: "/books/quiet".to_string(),
        created_at: 1,
        updated_at: 2,
    };
    let book = workspace_book(&workspace);
    assert_eq!(book.book_id, "quiet");
    assert_eq!(book.conversation_id, "");
    assert_eq!(book.status, BookStatus::Active);
    assert_eq!(book.updated_at, 2);
    let revision = synthetic_workspace_revision(&book, "abc123");
    assert_eq!(revision.revision_id, "workspace-abc123");
    assert_eq!(revision.job_id, "workspace");
    assert_eq!(revision.created_at, 2);
    assert_eq!(revision.render_status, RevisionRenderStatus::Ready);
}

#[test]
fn reader_reports_render_state() {
    assert_eq!(reported_render_status(false, Some(RevisionRenderStatus::Ready)), RevisionRenderStatus::Failed);
    assert_eq!(reported_render_status(true, None), RevisionRenderStatus::Ready);
    assert_eq!(reported_render_status(true, Some(RevisionRenderStatus::Pending)), RevisionRenderStatus::Pending);
    assert_eq!(
        reported_render_error(Some("no manifest".to_string()), &revision(RevisionRenderStatus::Ready)),
        Some("no manifest".to_string())
    );
    assert_eq!(
        reported_render_error(None, &revision(RevisionRenderStatus::Failed)),
        Some("render broke".to_string())
    );
    assert_eq!(reported_render_error(None, &revision(RevisionRenderStatus::Ready)), None);
}

#[test]
fn reader_endpoints_reject_stale_and_failed_revisions() {
    let ready = revision(RevisionRenderStatus::Ready);
    assert_eq!(check_readable_revision(&ready, None), Ok(()));
    assert_eq!(check_readable_revision(&ready, Some("revision-3")), Ok(()));
    assert_eq!(
        check_readable_revision(&ready, Some("revision-1")),
        Err((409, "stale_revision", "The requested revision is no longer current.".to_string()))
    );
    assert_eq!(
        check_readable_revision(&revision(RevisionRenderStatus::Failed), None),
        Err((422, "render_failed", "render broke".to_string()))
    );
}

#[test]
fn content_of_a_chapter_links_the_next_one() {
    let mut rendered = book();
    rendered.chapters[1].html = r#"<img src="assets/images/x.png">"#.to_string();
    rendered.content_hash = "hash".to_string();
    let first = book_writer_chat::reader::chapter_content(&rendered, "revision-2", 1, "b-1").unwrap();
    assert_eq!(first.chapter_id, "chapter-1");
    assert_eq!(first.chapter_index, 1);
    assert_eq!(first.content_hash, "hash");
    assert_eq!(first.html, r#"<img src="/api/reader/b-1/assets/assets/images/x.png">"#);
    assert!(first.has_more);
    let next = decode_cursor(first.next_cursor.as_deref().unwrap()).unwrap();
    assert_eq!(next, br#"{"revision_id":"revision-2","chapter_index":2}"#.to_vec());
    let last = book_writer_chat::reader::chapter_content(&rendered, "revision-2", 2, "b-1").unwrap();
    assert!(!last.has_more);
    assert!(last.next_cursor.is_none());
    assert!(book_writer_chat::reader::chapter_content(&rendered, "revision-2", 3, "b-1").is_none());
}
