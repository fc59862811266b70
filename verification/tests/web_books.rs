use book_writer_chat::books::{
    admit_planned_workspace, book_error_response, find_book_workspace, plan_book_workspace, registry_path,
    requested_book_language, sort_workspaces_by_slug, validated_workspace_path, BookWorkspace,
    BookWorkspaceError,
};
use book_writer_chat::models::BookLanguage;
use book_writer_chat::registry::CONVERSATION_REGISTRY_VERSION;
use book_writer_chat::web_books::{
    is_environment_context_message, is_internal_transcript_text, normalize_inferred_title,
    normalize_title, slugify_book_title, transliterate_char,
};

#[test]
fn slugifies_titles_into_safe_directory_names() {
    assert_eq!(
        slugify_book_title(" ../Quiet Lighthouse!!! ").as_deref(),
        Some("quiet-lighthouse")
    );
    assert_eq!(slugify_book_title("Тихий маяк").as_deref(), Some("tikhii-maiak"));
    assert_eq!(slugify_book_title("..."), None);
}

#[test]
fn provisioning_creates_workspace_and_empty_registry() {
    let plan = plan_book_workspace("/books", "Quiet Lighthouse", BookLanguage::English).unwrap();
    assert_eq!(plan.slug, "quiet-lighthouse");
    assert!(plan.workspace_path.starts_with("/books"));
    assert_eq!(plan.workspace_path, "/books/quiet-lighthouse");
    assert_eq!(plan.registry.version, 1);
    assert_eq!(plan.registry.book_id, "quiet-lighthouse");
    assert!(plan.registry.conversations.is_empty());
    assert_eq!(plan.manifest.book_id, "quiet-lighthouse");
    assert_eq!(plan.manifest.title, "Quiet Lighthouse");
    assert_eq!(plan.manifest.language, "en");
    assert_eq!(plan.title_page, "# Quiet Lighthouse\n\nDraft in progress\n");
    assert_eq!(
        plan.opening,
        "# Opening\n\nThis book workspace is ready for authoring.\n"
    );
    assert_eq!(CONVERSATION_REGISTRY_VERSION, 1);
}

#[test]
fn provisioning_rejects_duplicate_slug() {
    let first = plan_book_workspace("/books", "Quiet Lighthouse", BookLanguage::English).unwrap();
    let second =
        plan_book_workspace("/books", "Quiet---Lighthouse", BookLanguage::English).unwrap();
    assert_eq!(first.workspace_path, second.workspace_path);
    assert_eq!(admit_planned_workspace(&first, false), Ok(()));
    let error = admit_planned_workspace(&second, true).unwrap_err();
    assert!(matches!(
        error,
        BookWorkspaceError::DuplicateSlug { ref slug } if slug == "quiet-lighthouse"
    ));
    let (status, code, message) = book_error_response(&error);
    assert_eq!(status, 409);
    assert_eq!(code, "duplicate_book_slug");
    assert_eq!(message, "A book workspace already exists for slug `quiet-lighthouse`.");
}

#[test]
fn provisioning_refuses_blank_and_slugless_titles() {
    assert_eq!(
        plan_book_workspace("/books", "   ", BookLanguage::Russian).err(),
        Some(BookWorkspaceError::InvalidTitle)
    );
    assert_eq!(
        plan_book_workspace("/books", "!!!", BookLanguage::Russian).err(),
        Some(BookWorkspaceError::InvalidSlug)
    );
    let plan = plan_book_workspace("/books", "Тихий маяк", BookLanguage::Russian).unwrap();
    assert_eq!(plan.manifest.subtitle, "Черновик в работе");
    assert_eq!(plan.manifest.language, "ru");
}

#[test]
fn workspace_paths_stay_inside_the_root() {
    assert_eq!(validated_workspace_path("/books", "quiet").unwrap(), "/books/quiet");
    assert_eq!(
        validated_workspace_path("/books", "../escape"),
        Err(BookWorkspaceError::PathEscape)
    );
    assert_eq!(validated_workspace_path("/books", "/etc"), Err(BookWorkspaceError::PathEscape));
    assert_eq!(registry_path("/books/quiet"), "/books/quiet/conversations.json");
}

#[test]
fn books_are_found_by_id_or_slug() {
    let books = vec![BookWorkspace {
        book_id: "book-id".to_string(),
        slug: "quiet".to_string(),
        title: "Quiet".to_string(),
        subtitle: String::new(),
        language: BookLanguage::English,
        workspace_path: "/books/quiet".to_string(),
        created_at: 0,
        updated_at: 0,
    }];
    assert!(find_book_workspace(&books, "book-id").is_some());
    assert!(find_book_workspace(&books, "quiet").is_some());
    assert!(find_book_workspace(&books, "other").is_none());
}

#[test]
fn book_language_defaults_to_russian() {
    assert_eq!(requested_book_language(None), Some(BookLanguage::Russian));
    assert_eq!(requested_book_language(Some(" EN ")), Some(BookLanguage::English));
    assert_eq!(requested_book_language(Some("fr")), None);
}

#[test]
fn titles_and_text_classification() {
    assert_eq!(normalize_title("  Title  ").as_deref(), Some("Title"));
    assert_eq!(normalize_title("   "), None);
    assert_eq!(
        normalize_inferred_title("one two three four five six seven").as_deref(),
        Some("one two three four five six...")
    );
    assert_eq!(transliterate_char('Щ'), "shch");
    assert_eq!(transliterate_char('x'), "");
    assert!(is_environment_context_message(
        "  <environment_context>cwd</environment_context> "
    ));
    assert!(is_internal_transcript_text("# AGENTS.md instructions for /tmp"));
    assert!(!is_internal_transcript_text("Hello"));
}

fn workspace(slug: &str, book_id: &str) -> BookWorkspace {
    BookWorkspace {
        book_id: book_id.to_string(),
        slug: slug.to_string(),
        title: slug.to_string(),
        subtitle: String::new(),
        language: BookLanguage::Russian,
        workspace_path: format!("/books/{slug}"),
        created_at: 0,
        updated_at: 0,
    }
}

#[test]
fn workspaces_are_listed_in_slug_order() {
    let books = sort_workspaces_by_slug(vec![
        workspace("zeta", "1"),
        workspace("alpha", "2"),
        workspace("tikhii-maiak", "3"),
        workspace("alpha", "4"),
        workspace("Beta", "5"),
    ]);
    let order: Vec<(&str, &str)> =
        books.iter().map(|b| (b.slug.as_str(), b.book_id.as_str())).collect();
    assert_eq!(
        order,
        vec![("Beta", "5"), ("alpha", "2"), ("alpha", "4"), ("tikhii-maiak", "3"), ("zeta", "1")]
    );
    assert!(sort_workspaces_by_slug(Vec::new()).is_empty());
}

#[test]
fn a_slug_is_its_own_slug_and_titles_without_letters_have_none() {
    for title in ["Quiet Lighthouse", "Тихий маяк", "  a--b  ", "Chapter 12: Ёлка"] {
        let slug = slugify_book_title(title).unwrap();
        assert_eq!(slugify_book_title(&slug), Some(slug.clone()));
    }
    assert_eq!(slugify_book_title("日本 — !"), None);
    assert_eq!(slugify_book_title(""), None);
    assert_eq!(slugify_book_title("ъ"), None);
    assert_eq!(slugify_book_title("ъ1").as_deref(), Some("1"));
}
