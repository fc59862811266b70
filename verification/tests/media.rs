use book_writer_chat::media::{
    content_type_essence, is_web_scheme, max_download_mime, telegram_file_url,
    telegram_get_file_url, FakeMediaDownloader,
};
use book_writer_chat::media_assets::DownloadedMedia;
use book_writer_chat::models::{MessageAttachment, MessageAttachmentKind, Provider};

#[test]
fn telegram_addresses_hold_the_bot_token() {
    assert_eq!(telegram_get_file_url("123:abc"), "https://api.telegram.org/bot123:abc/getFile");
    assert_eq!(
        telegram_file_url("123:abc", "photos/file_1.jpg"),
        "https://api.telegram.org/file/bot123:abc/photos/file_1.jpg"
    );
}

#[test]
fn content_types_keep_their_essence() {
    assert_eq!(content_type_essence(" image/png ; charset=x"), Some("image/png".to_string()));
    assert_eq!(content_type_essence("image/jpeg"), Some("image/jpeg".to_string()));
    assert_eq!(content_type_essence(" ; x"), None);
    assert_eq!(
        max_download_mime(&Some("image/png".to_string()), Some("image/jpeg".to_string())),
        Some("image/png".to_string())
    );
    assert_eq!(max_download_mime(&None, Some("image/jpeg".to_string())), Some("image/jpeg".to_string()));
    assert!(is_web_scheme("https"));
    assert!(is_web_scheme("http"));
    assert!(!is_web_scheme("file"));
}

#[test]
fn fake_downloader_serves_its_media() {
    let downloader = FakeMediaDownloader::new(DownloadedMedia {
        bytes: vec![1, 2, 3],
        mime_type: Some("image/png".to_string()),
        provider_file_path: None,
    });
    let attachment = MessageAttachment {
        kind: MessageAttachmentKind::Image,
        provider_file_id: "f".to_string(),
        provider_unique_id: None,
        original_filename: None,
        mime_type: None,
        width: None,
        height: None,
        file_size: None,
        caption: None,
    };
    let media = downloader.download(&Provider::Telegram, &attachment);
    assert_eq!(media.bytes, vec![1, 2, 3]);
    assert_eq!(media.mime_type.as_deref(), Some("image/png"));
}
