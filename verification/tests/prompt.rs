use book_writer_chat::database::Book;
use book_writer_chat::media_assets::SavedImageAttachment;
use book_writer_chat::models::{BookLanguage, BookStatus, NormalizedMessage, Provider};
use book_writer_chat::prompt::{build_prompt, image_context};
use book_writer_chat::workspace::starter_manifest;

fn book() -> Book {
    Book {
        book_id: "book-1".to_string(),
        conversation_id: "telegram:1".to_string(),
        title: "Prompt Test".to_string(),
        status: BookStatus::Active,
        workspace_path: String::new(),
        created_at: 0,
        updated_at: 0,
    }
}

fn message() -> NormalizedMessage {
    NormalizedMessage {
        provider: Provider::Telegram,
        provider_chat_id: "telegram:1".to_string(),
        message_id: "1".to_string(),
        timestamp: 0,
        raw_text: "@bookbot write a better opening chapter".to_string(),
        attachments: Vec::new(),
        mentions_bot: true,
        sender_display_name: "Alice".to_string(),
    }
}

#[test]
fn prompt_includes_required_context() {
    let book = book();
    let manifest = starter_manifest("book-1", "telegram:1", "Prompt Test", BookLanguage::English);
    let prompt = build_prompt(
        "/data/workspaces/telegram-1",
        &book,
        "write a better opening chapter",
        &message(),
        &Vec::new(),
        &manifest,
    );
    assert!(prompt.contains("Prompt package for Codex CLI authoring job"));
    assert!(prompt.contains("Only modify files inside this workspace"));
    assert!(prompt.contains("Communicate with the author in English"));
    assert!(prompt.contains("Normalized user instruction:\nwrite a better opening chapter"));
    assert!(prompt.contains("Current manuscript structure summary"));
    assert!(prompt.contains("No additional conversation summary is available"));
    assert!(!prompt.contains("@bookbot write a better opening chapter"));
    assert!(!prompt.contains("unrelated secret"));
}

#[test]
fn prompt_lists_manifest_entries_and_trims_the_instruction() {
    let manifest = starter_manifest("book-1", "telegram:1", "Prompt Test", BookLanguage::Russian);
    let prompt = build_prompt("/w", &book(), "  add a chapter \n", &message(), &Vec::new(), &manifest);
    assert!(prompt.contains("- title-page [frontmatter] -> content/frontmatter/001-title-page.md"));
    assert!(prompt.contains("- chapter-1 [chapter] -> content/chapters/001-opening.md"));
    assert!(prompt.contains("Normalized user instruction:\nadd a chapter\n\n"));
    assert!(prompt.contains("Communicate with the author in Russian"));
    assert!(prompt.contains("- Latest author display name: Alice"));
    assert!(prompt.contains("Available image attachments:\n- None\n\n"));
}

#[test]
fn image_context_describes_each_saved_image() {
    let images = vec![SavedImageAttachment {
        workspace_relative_path: "assets/images/photo.png".to_string(),
        markdown: "![photo](assets/images/photo.png)".to_string(),
        mime_type: "image/png".to_string(),
        original_filename: None,
        width: Some(640),
        height: Some(480),
        file_size: 12,
        caption: Some("sea".to_string()),
    }];
    assert_eq!(
        image_context(&images),
        "Available image attachments:\n- Image 1: path `assets/images/photo.png`; markdown `![photo](assets/images/photo.png)`; MIME image/png; bytes 12; original filename none; dimensions 640x480; caption sea\nUse these workspace-relative paths when placing images in Markdown. Do not use messenger API URLs or external file URLs for these attachments.\n\n"
    );
    assert_eq!(image_context(&Vec::new()), "Available image attachments:\n- None\n\n");
}
