use book_writer_chat::markdown::{
    choose_image_reference, markdown_image_destinations, markdown_to_html, resolve_image_destination,
    rewrite_markdown_events, ImageResolution, MarkdownEvent,
};
use book_writer_chat::media_assets::AssetPathError;
use book_writer_chat::render::RenderError;

const CHAPTER: &str = "content/chapters/001-opening.md";

fn resolved(dest_url: &str, exists: bool) -> Vec<ImageResolution> {
    let normalized = choose_image_reference(dest_url, None, None);
    vec![ImageResolution { dest_url: dest_url.to_string(), normalized, exists }]
}

#[test]
fn text_runs_carry_their_source_range() {
    let html = markdown_to_html("Hello", "a.md", &Vec::new()).unwrap();
    assert_eq!(
        html,
        "<p><span data-source-file=\"a.md\" data-source-start-line=\"1\" data-source-start-char=\"1\" data-source-end-line=\"1\" data-source-end-char=\"6\">Hello</span></p>\n"
    );
}

#[test]
fn headings_and_later_lines_are_located() {
    let html = markdown_to_html("# Title\n\nSecond", "b.md", &Vec::new()).unwrap();
    assert!(html.starts_with("<h1><span data-source-file=\"b.md\" data-source-start-line=\"1\" data-source-start-char=\"3\""));
    assert!(html.contains("data-source-start-line=\"3\" data-source-start-char=\"1\" data-source-end-line=\"3\" data-source-end-char=\"7\">Second</span></p>"));
}

#[test]
fn tables_are_rendered() {
    let html = markdown_to_html("| a |\n|---|\n| b |\n", "t.md", &Vec::new()).unwrap();
    assert!(html.starts_with("<table>"));
}

#[test]
fn normalizes_root_relative_image_references() {
    let markdown = "![alt](/assets/images/example.png)";
    assert_eq!(markdown_image_destinations(markdown), vec!["/assets/images/example.png".to_string()]);
    let html = markdown_to_html(markdown, CHAPTER, &resolved("/assets/images/example.png", true)).unwrap();
    assert!(html.contains("src=\"assets/images/example.png\""));
}

#[test]
fn chapter_relative_images_take_the_resolved_path() {
    let dest = "../../assets/images/example.png";
    let normalized = choose_image_reference(dest, Some("assets/images/example.png".to_string()), None);
    assert_eq!(normalized.as_deref(), Some("assets/images/example.png"));
    let images = vec![ImageResolution { dest_url: dest.to_string(), normalized, exists: true }];
    let html = markdown_to_html("![alt](../../assets/images/example.png)", CHAPTER, &images).unwrap();
    assert!(html.contains("src=\"assets/images/example.png\""));
}

#[test]
fn absolute_images_inside_the_workspace_take_their_relative_path() {
    let dest = "/tmp/w/assets/images/example.png";
    let normalized = choose_image_reference(dest, None, Some("assets/images/example.png".to_string()));
    assert_eq!(normalized.as_deref(), Some("assets/images/example.png"));
}

#[test]
fn unresolved_images_keep_their_destination() {
    assert_eq!(choose_image_reference("https://example.com/a.png", None, None), None);
    let html = markdown_to_html("![alt](https://example.com/a.png)", CHAPTER, &resolved("https://example.com/a.png", false)).unwrap();
    assert!(html.contains("src=\"https://example.com/a.png\""));
    let html = markdown_to_html("![alt](x.png)", CHAPTER, &Vec::new()).unwrap();
    assert!(html.contains("src=\"x.png\""));
}

#[test]
fn missing_images_refuse_the_chapter() {
    let error = markdown_to_html("![alt](assets/images/none.png)", CHAPTER, &resolved("assets/images/none.png", false)).unwrap_err();
    assert_eq!(error, RenderError::ImageMissing { dest_url: "assets/images/none.png".to_string() });
    assert_eq!(error.message(), "image reference `assets/images/none.png` does not exist");
}

#[test]
fn images_outside_the_asset_directory_are_refused() {
    let images = vec![ImageResolution {
        dest_url: "../notes/a.png".to_string(),
        normalized: Some("notes/a.png".to_string()),
        exists: true,
    }];
    let error = resolve_image_destination("../notes/a.png".to_string(), &images).unwrap_err();
    assert_eq!(error, RenderError::ImageRefused(AssetPathError::OutsideImagesDir));
    assert_eq!(error.message(), "asset path must stay under assets/images");
    assert_eq!(
        resolve_image_destination("assets/images/a.png".to_string(), &resolved("assets/images/a.png", true)),
        Ok("assets/images/a.png".to_string())
    );
}

#[test]
fn rewriting_wraps_text_and_keeps_other_events() {
    let events = vec![
        MarkdownEvent::Html("<hr>".to_string()),
        MarkdownEvent::Text { text: "ab".to_string(), start: 0, end: 2 },
    ];
    let out = rewrite_markdown_events(events, "ab", "f.md", &Vec::new()).unwrap();
    assert_eq!(out.len(), 4);
    assert!(matches!(&out[0], MarkdownEvent::Html(h) if h == "<hr>"));
    assert!(matches!(&out[1], MarkdownEvent::Html(h) if h.starts_with("<span data-source-file=\"f.md\"")));
    assert!(matches!(&out[2], MarkdownEvent::Text { text, start: 0, end: 2 } if text == "ab"));
    assert!(matches!(&out[3], MarkdownEvent::Html(h) if h == "</span>"));
}

#[test]
fn ranges_off_character_boundaries_are_refused() {
    let events = vec![MarkdownEvent::Text { text: "ц".to_string(), start: 1, end: 2 }];
    assert_eq!(rewrite_markdown_events(events, "ц", "f.md", &Vec::new()).unwrap_err(), RenderError::SourceOffset);
    let events = vec![MarkdownEvent::Text { text: "x".to_string(), start: 0, end: 9 }];
    assert_eq!(rewrite_markdown_events(events, "x", "f.md", &Vec::new()).unwrap_err(), RenderError::SourceOffset);
}

#[test]
fn image_destinations_come_in_order() {
    assert_eq!(
        markdown_image_destinations("![a](x.png)\n\ntext ![b](y.png)"),
        vec!["x.png".to_string(), "y.png".to_string()]
    );
    assert!(markdown_image_destinations("no images").is_empty());
}
