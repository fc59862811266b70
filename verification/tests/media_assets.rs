use book_writer_chat::media_assets::{
    content_type_for_asset_path, ensure_workspace_asset_path, escape_markdown_alt,
    extension_from_path, image_extension, normalize_image_extension, prepare_image_attachment,
    sanitize_component, strip_bot_address, AssetPathError, AttachmentError, DownloadedMedia,
};
use book_writer_chat::models::{MessageAttachment, MessageAttachmentKind, Provider};

fn attachment(mime_type: &str) -> MessageAttachment {
    MessageAttachment {
        kind: MessageAttachmentKind::Image,
        provider_file_id: "file-1".to_string(),
        provider_unique_id: Some("unique-1".to_string()),
        original_filename: Some("../unsafe.png".to_string()),
        mime_type: Some(mime_type.to_string()),
        width: Some(640),
        height: Some(480),
        file_size: Some(4),
        caption: Some("@assistant place this diagram".to_string()),
    }
}

#[test]
fn rejects_unsafe_asset_paths() {
    assert!(ensure_workspace_asset_path("assets/images/photo.png").is_ok());
    assert!(ensure_workspace_asset_path("assets/../secret.png").is_err());
    assert!(ensure_workspace_asset_path("/assets/images/photo.png").is_err());
    assert!(ensure_workspace_asset_path("content/photo.png").is_err());
}

#[test]
fn asset_path_errors_name_the_rule_broken() {
    assert_eq!(
        ensure_workspace_asset_path("/assets/images/a.png"),
        Err(AssetPathError::NotRelative)
    );
    assert_eq!(
        ensure_workspace_asset_path("content/a.png"),
        Err(AssetPathError::OutsideImagesDir)
    );
    assert_eq!(
        ensure_workspace_asset_path("assets/images/../a.png"),
        Err(AssetPathError::UnsafeComponent)
    );
}

#[test]
fn rejects_unsupported_image_mime() {
    let result = prepare_image_attachment(
        &Provider::App,
        &chrono::Utc::now().timestamp().to_string(),
        0,
        &attachment("image/svg+xml"),
        &DownloadedMedia {
            bytes: vec![1, 2, 3, 4],
            mime_type: Some("image/svg+xml".to_string()),
            provider_file_path: None,
        },
    );
    assert!(result.is_err());
}

#[test]
fn saves_image_under_assets_images_with_safe_name() {
    let saved = prepare_image_attachment(
        &Provider::App,
        "../message:1",
        0,
        &attachment("image/png"),
        &DownloadedMedia {
            bytes: vec![1, 2, 3, 4],
            mime_type: Some("image/png".to_string()),
            provider_file_path: Some("photos/original.png".to_string()),
        },
    )
    .unwrap();
    assert_eq!(saved.workspace_relative_path, "assets/images/app-message-1-1.png");
    assert!(saved.markdown.contains("assets/images/app-message-1-1.png"));
    assert_eq!(saved.file_size, 4);
}

#[test]
fn too_large_images_are_refused() {
    let result = prepare_image_attachment(
        &Provider::Telegram,
        "1",
        0,
        &attachment("image/png"),
        &DownloadedMedia {
            bytes: vec![0; 20 * 1024 * 1024 + 1],
            mime_type: Some("image/png".to_string()),
            provider_file_path: None,
        },
    );
    assert_eq!(result.unwrap_err(), AttachmentError::TooLarge);
}

#[test]
fn content_types_follow_extensions() {
    assert_eq!(content_type_for_asset_path("assets/images/a.PNG"), Some("image/png"));
    assert_eq!(content_type_for_asset_path("assets/images/a.jpeg"), Some("image/jpeg"));
    assert_eq!(content_type_for_asset_path("assets/images/a.svg"), None);
}

#[test]
fn extension_helpers() {
    assert_eq!(extension_from_path("photos/original.png"), Some("png".to_string()));
    assert_eq!(extension_from_path("noext"), None);
    assert_eq!(normalize_image_extension("JPG"), Some("jpg"));
    assert_eq!(normalize_image_extension("gif"), Some("gif"));
    assert_eq!(normalize_image_extension("bmp"), None);
    assert!(image_extension(Some("image/webp"), None, None).is_ok());
}

#[test]
fn sanitizing_and_escaping() {
    assert_eq!(sanitize_component("../message:1"), "message-1");
    assert_eq!(sanitize_component("///"), "message");
    assert_eq!(strip_bot_address("@assistant place this"), " place this");
    assert_eq!(escape_markdown_alt("a[b]"), "a\\[b\\]");
}
