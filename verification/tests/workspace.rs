use book_writer_chat::models::BookLanguage;
use book_writer_chat::workspace::{
    default_style, diff_workspace, read_book_language, slugify, starter_manifest,
    title_page_markdown, workspace_dir, workspace_template, BACKMATTER_DIR, BOOK_MANIFEST_FILE,
    CHAPTERS_DIR, FRONTMATTER_DIR, IMAGES_DIR, OPENING_CHAPTER_FILE, STYLE_FILE,
    TITLE_PAGE_FILE,
};

#[test]
fn creates_expected_workspace_tree() {
    let template = workspace_template("/data/workspaces", "app:1", "book-1", "Sample", BookLanguage::English);
    assert_eq!(template.path, "/data/workspaces/app-1");
    assert_eq!(BOOK_MANIFEST_FILE, "book.yaml");
    assert_eq!(STYLE_FILE, "style.yaml");
    assert_eq!(FRONTMATTER_DIR, "content/frontmatter");
    assert_eq!(CHAPTERS_DIR, "content/chapters");
    assert_eq!(BACKMATTER_DIR, "content/backmatter");
    assert_eq!(IMAGES_DIR, "assets/images");
    assert_eq!(TITLE_PAGE_FILE, "content/frontmatter/001-title-page.md");
    assert_eq!(OPENING_CHAPTER_FILE, "content/chapters/001-opening.md");

    let manifest = template.manifest;
    assert_eq!(manifest.book_id, "book-1");
    assert_eq!(manifest.conversation_key, "app:1");
    assert_eq!(manifest.language, "en");
    assert_eq!(manifest.assets.images_dir, "assets/images");
    assert_eq!(manifest.content.len(), 2);
    assert_eq!(manifest.content[0].file, TITLE_PAGE_FILE);
    assert_eq!(manifest.content[1].file, OPENING_CHAPTER_FILE);
    assert!(template.title_page.starts_with("# Sample"));
}

#[test]
fn creates_russian_workspace_template() {
    let template = workspace_template("/data", "app:1", "book-1", "Sample", BookLanguage::Russian);
    assert_eq!(template.manifest.language, "ru");
    assert_eq!(template.manifest.subtitle, "Черновик в работе");
    assert!(template.opening.contains("Эта беседа готова"));
    assert!(template.title_page.contains("Черновик в работе"));
}

#[test]
fn starter_manifest_uses_the_standard_profile() {
    let manifest = starter_manifest("b", "telegram:1", "T", BookLanguage::English);
    assert_eq!(manifest.render_profile, "standard-book");
    assert_eq!(manifest.content[0].id, "title-page");
    assert_eq!(manifest.content[1].id, "chapter-1");
    assert!(manifest.repository.is_none());
}

#[test]
fn workspace_directories_are_slugs_of_the_conversation() {
    assert_eq!(slugify("Telegram:42 / Chat"), "telegram-42---chat");
    assert_eq!(slugify("--A--"), "a");
    assert_eq!(slugify("***"), "");
    assert_eq!(workspace_dir("/root", "max:7"), "/root/max-7");
}

#[test]
fn title_page_holds_title_and_subtitle() {
    assert_eq!(title_page_markdown("My Book", "Draft"), "# My Book\n\nDraft\n");
}

#[test]
fn default_style_is_sorted_and_not_empty() {
    let style = default_style();
    assert_eq!(style.theme, "classic-readable");
    for table in [&style.typography, &style.layout, &style.images] {
        assert!(!table.is_empty());
        for pair in table.windows(2) {
            assert!(pair[0].0 < pair[1].0);
        }
    }
    assert_eq!(style.typography[0], ("body".to_string(), "book-serif".to_string()));
}

#[test]
fn book_language_defaults_to_english() {
    assert_eq!(read_book_language(None), BookLanguage::English);
    assert_eq!(read_book_language(Some("ru")), BookLanguage::Russian);
    assert_eq!(read_book_language(Some("xx")), BookLanguage::English);
}

#[test]
fn diff_lists_changed_added_and_removed_files_once_in_order() {
    let before = vec![
        ("a.md".to_string(), b"one".to_vec()),
        ("b.md".to_string(), b"same".to_vec()),
        ("d.md".to_string(), b"gone".to_vec()),
    ];
    let after = vec![
        ("c.md".to_string(), b"new".to_vec()),
        ("b.md".to_string(), b"same".to_vec()),
        ("a.md".to_string(), b"two".to_vec()),
    ];
    assert_eq!(diff_workspace(&before, &after), vec!["a.md", "c.md", "d.md"]);
    assert!(diff_workspace(&before, &before).is_empty());
}

#[test]
fn diff_is_symmetric() {
    let before = vec![("z.md".to_string(), b"1".to_vec()), ("m.md".to_string(), b"2".to_vec())];
    let after = vec![("m.md".to_string(), b"3".to_vec()), ("a.md".to_string(), b"4".to_vec())];
    assert_eq!(diff_workspace(&before, &after), diff_workspace(&after, &before));
    assert_eq!(diff_workspace(&before, &after), vec!["a.md", "m.md", "z.md"]);
    assert!(diff_workspace(&after, &after).is_empty());
}
