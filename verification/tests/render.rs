use book_writer_chat::render::{
    assemble_rendered_book, first_heading, rendered_chapter, source_span_open, to_hex,
    workspace_image_reference, RenderError, SourceLineIndex, SourcePosition,
};
use book_writer_chat::workspace::{starter_manifest, title_page_markdown, OPENING_CHAPTER_FILE};
use book_writer_chat::models::BookLanguage;
use sha2::Digest;

fn chapter_html(source_file: &str, markdown: &str) -> String {
    let index = SourceLineIndex::new(markdown);
    let start = index.position(0);
    let end = index.position(markdown.len());
    format!("<p>{}{}</span></p>", source_span_open(source_file, start, end), markdown.trim())
}

fn render_starter() -> book_writer_chat::render::RenderedBook {
    let manifest = starter_manifest("book-1", "app:1", "Deterministic", BookLanguage::English);
    let pages = [
        title_page_markdown("Deterministic", "Draft in progress"),
        "# Opening\n\nThis conversation is ready for authoring.\n".to_string(),
    ];
    let chapters = manifest
        .content
        .iter()
        .zip(pages.iter())
        .map(|(entry, markdown)| rendered_chapter(entry, markdown, chapter_html(&entry.file, markdown)))
        .collect();
    assemble_rendered_book(manifest.title.clone(), manifest.subtitle.clone(), "classic-readable".to_string(), chapters)
        .unwrap()
}

#[test]
fn render_is_deterministic() {
    let one = render_starter();
    let two = render_starter();
    assert_eq!(one.full_html, two.full_html);
    assert_eq!(one.content_hash, two.content_hash);
    assert_eq!(one.chapters[0].source_file, "content/frontmatter/001-title-page.md");
    assert_eq!(one.chapters[1].source_file, OPENING_CHAPTER_FILE);
    assert_eq!(one.chapters[1].title, "Opening");
    assert!(one.full_html.contains("data-source-file=\"content/"));
    assert!(!one.full_html.contains("<h2>Opening</h2>"));
}

#[test]
fn content_hash_is_the_sha256_of_the_full_html() {
    let book = render_starter();
    let expected = format!("{:x}", sha2::Sha256::digest(book.full_html.as_bytes()));
    assert_eq!(book.content_hash, expected);
    assert_eq!(book.content_hash.len(), 64);
    assert!(book.full_html.starts_with("<section data-kind=\"frontmatter\" data-id=\"title-page\">"));
}

#[test]
fn a_book_without_chapters_is_refused() {
    let result = assemble_rendered_book(String::new(), String::new(), String::new(), Vec::new());
    assert_eq!(result.unwrap_err(), RenderError::NoContent);
    assert_eq!(RenderError::NoContent.message(), "book manifest contains no content entries");
}

#[test]
fn hex_is_lower_case_two_digits_per_byte() {
    assert_eq!(to_hex(&[0, 15, 16, 255]), "000f10ff");
    assert_eq!(to_hex(&[]), "");
}

#[test]
fn first_heading_is_the_first_level_one_heading() {
    assert_eq!(first_heading("intro\n## Sub\n# Title\n# Later"), Some("Title".to_string()));
    assert_eq!(first_heading("no heading"), None);
}

#[test]
fn normalizes_workspace_image_references_before_rendering() {
    assert_eq!(
        workspace_image_reference("/assets/images/example.png"),
        Some("assets/images/example.png".to_string())
    );
    assert_eq!(
        workspace_image_reference("assets/images/example.png"),
        Some("assets/images/example.png".to_string())
    );
    assert_eq!(workspace_image_reference("../../assets/images/example.png"), None);
}

#[test]
fn positions_count_lines_and_characters_from_one() {
    let source = "ab\nцd\n";
    let index = SourceLineIndex::new(source);
    assert_eq!(index.position(0), SourcePosition { line: 1, character: 1 });
    assert_eq!(index.position(2), SourcePosition { line: 1, character: 3 });
    assert_eq!(index.position(3), SourcePosition { line: 2, character: 1 });
    assert_eq!(index.position(5), SourcePosition { line: 2, character: 2 });
    assert_eq!(index.position(source.len()), SourcePosition { line: 3, character: 1 });
}

#[test]
fn source_spans_escape_the_file_name() {
    let start = SourcePosition { line: 1, character: 2 };
    let end = SourcePosition { line: 3, character: 4 };
    assert_eq!(
        source_span_open("a&\"b", start, end),
        "<span data-source-file=\"a&amp;&quot;b\" data-source-start-line=\"1\" data-source-start-char=\"2\" data-source-end-line=\"3\" data-source-end-char=\"4\">"
    );
}
