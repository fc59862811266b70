use book_writer_chat::models::Provider;
use book_writer_chat::providers::{
    max_attachments, normalize_official_payload, telegram_mentions_bot, MaxOfficialAttachment,
    MaxOfficialAttachmentPayload, MaxOfficialMessage, MaxOfficialMessageBody,
    MaxOfficialRecipient, MaxOfficialUpdate, MaxOfficialUser, MaxPayload, MaxStubAdapter,
    MaxWebhook, ProviderError, ReplyToMessage, ReplyUser, TelegramAdapter, TelegramChat,
    TelegramDocument, TelegramMessage, TelegramPhotoSize, TelegramUser, TelegramWebhook,
};
use book_writer_chat::models::{MessageAttachment, MessageAttachmentKind};

fn telegram_message(text: Option<&str>, caption: Option<&str>) -> TelegramMessage {
    TelegramMessage {
        message_id: 999,
        date: 1_775_385_600,
        text: text.map(|t| t.to_string()),
        caption: caption.map(|c| c.to_string()),
        photo: None,
        document: None,
        chat: TelegramChat { id: 42, title: Some("Chat".to_string()) },
        from: Some(TelegramUser {
            first_name: Some("Alice".to_string()),
            username: Some("alice".to_string()),
        }),
        reply_to_message: None,
    }
}

#[test]
fn adapters_expose_expected_providers() {
    assert_eq!(TelegramAdapter.provider(), Provider::Telegram);
    assert_eq!(MaxStubAdapter.provider(), Provider::Max);
}

#[test]
fn telegram_reply_to_bot_counts_as_bot_directed() {
    let mut message = telegram_message(Some("status"), None);
    message.reply_to_message = Some(ReplyToMessage {
        from: Some(ReplyUser { username: Some("bookbot".to_string()) }),
    });
    let normalized = TelegramAdapter
        .normalize_payload(&TelegramWebhook { message }, "bookbot")
        .unwrap();
    assert!(normalized.mentions_bot);
}

#[test]
fn telegram_photo_caption_counts_as_bot_directed_and_selects_largest_photo() {
    let mut message =
        telegram_message(None, Some("@bookbot place this near the lighthouse scene"));
    message.message_id = 1000;
    message.reply_to_message = None;
    message.photo = Some(vec![
        TelegramPhotoSize {
            file_id: "small-file".to_string(),
            file_unique_id: "small-unique".to_string(),
            width: 320,
            height: 200,
            file_size: Some(2_000),
        },
        TelegramPhotoSize {
            file_id: "large-file".to_string(),
            file_unique_id: "large-unique".to_string(),
            width: 1280,
            height: 800,
            file_size: Some(20_000),
        },
    ]);
    let normalized = TelegramAdapter
        .normalize_payload(&TelegramWebhook { message }, "bookbot")
        .unwrap();

    assert!(normalized.mentions_bot);
    assert_eq!(normalized.raw_text, "@bookbot place this near the lighthouse scene");
    assert_eq!(normalized.attachments.len(), 1);
    let attachment = &normalized.attachments[0];
    assert_eq!(attachment.provider_file_id, "large-file");
    assert_eq!(attachment.provider_unique_id.as_deref(), Some("large-unique"));
    assert_eq!(attachment.mime_type.as_deref(), Some("image/jpeg"));
    assert_eq!(attachment.width, Some(1280));
    assert_eq!(attachment.height, Some(800));
}

#[test]
fn telegram_image_document_normalizes_as_attachment() {
    let mut message = telegram_message(None, Some("@bookbot add this diagram"));
    message.message_id = 1001;
    message.from = None;
    message.document = Some(TelegramDocument {
        file_id: "document-file".to_string(),
        file_unique_id: "document-unique".to_string(),
        file_name: Some("diagram.png".to_string()),
        mime_type: Some("image/png".to_string()),
        file_size: Some(4096),
    });
    let normalized = TelegramAdapter
        .normalize_payload(&TelegramWebhook { message }, "bookbot")
        .unwrap();

    assert_eq!(normalized.attachments.len(), 1);
    let attachment = &normalized.attachments[0];
    assert_eq!(attachment.provider_file_id, "document-file");
    assert_eq!(attachment.original_filename.as_deref(), Some("diagram.png"));
    assert_eq!(attachment.mime_type.as_deref(), Some("image/png"));
}

#[test]
fn telegram_non_image_document_is_not_an_attachment() {
    let mut message = telegram_message(None, Some("@bookbot read this"));
    message.message_id = 1002;
    message.from = None;
    message.document = Some(TelegramDocument {
        file_id: "document-file".to_string(),
        file_unique_id: "document-unique".to_string(),
        file_name: Some("notes.pdf".to_string()),
        mime_type: Some("application/pdf".to_string()),
        file_size: Some(4096),
    });
    let normalized = TelegramAdapter
        .normalize_payload(&TelegramWebhook { message }, "bookbot")
        .unwrap();

    assert!(normalized.attachments.is_empty());
}

#[test]
fn telegram_normalization_formats_ids_time_and_sender() {
    let message = telegram_message(Some("/bookbot init"), Some("ignored caption"));
    let normalized = TelegramAdapter
        .normalize_payload(&TelegramWebhook { message }, "bookbot")
        .unwrap();
    assert_eq!(normalized.provider, Provider::Telegram);
    assert_eq!(normalized.provider_chat_id, "telegram:42");
    assert_eq!(normalized.message_id, "999");
    assert_eq!(normalized.timestamp, 1_775_385_600_000_000_000);
    assert_eq!(normalized.raw_text, "/bookbot init");
    assert_eq!(normalized.sender_display_name, "Alice");
    assert!(normalized.mentions_bot);
}

#[test]
fn telegram_negative_chat_ids_keep_their_sign() {
    let mut message = telegram_message(Some("hello"), None);
    message.chat.id = -1001234;
    message.from = None;
    let normalized = TelegramAdapter
        .normalize_payload(&TelegramWebhook { message }, "bookbot")
        .unwrap();
    assert_eq!(normalized.provider_chat_id, "telegram:-1001234");
    assert_eq!(normalized.sender_display_name, "Telegram user");
    assert!(!normalized.mentions_bot);
}

#[test]
fn telegram_dates_outside_the_timestamp_range_are_refused() {
    let mut message = telegram_message(Some("hello"), None);
    message.date = i64::MAX;
    let result = TelegramAdapter.normalize_payload(&TelegramWebhook { message }, "bookbot");
    assert_eq!(result.unwrap_err(), ProviderError::InvalidTelegramTimestamp);
}

#[test]
fn telegram_equal_photos_pick_the_last() {
    let mut message = telegram_message(None, Some("  "));
    message.photo = Some(vec![
        TelegramPhotoSize {
            file_id: "first".to_string(),
            file_unique_id: "u1".to_string(),
            width: 10,
            height: 10,
            file_size: None,
        },
        TelegramPhotoSize {
            file_id: "second".to_string(),
            file_unique_id: "u2".to_string(),
            width: 10,
            height: 10,
            file_size: None,
        },
    ]);
    let normalized = TelegramAdapter
        .normalize_payload(&TelegramWebhook { message }, "bookbot")
        .unwrap();
    assert_eq!(normalized.attachments[0].provider_file_id, "second");
    assert_eq!(normalized.attachments[0].caption, None);
}

#[test]
fn telegram_mentions_require_a_prefix_or_a_reply() {
    let message = telegram_message(Some("  @bookbot hi"), None);
    assert!(telegram_mentions_bot(&message, "bookbot"));
    let message = telegram_message(Some("hi @bookbot"), None);
    assert!(!telegram_mentions_bot(&message, "bookbot"));
    let mut message = telegram_message(Some("   "), None);
    message.reply_to_message = Some(ReplyToMessage {
        from: Some(ReplyUser { username: Some("bookbot".to_string()) }),
    });
    assert!(!telegram_mentions_bot(&message, "bookbot"));
}

fn official(update_type: &str, attachments: Vec<MaxOfficialAttachment>) -> MaxOfficialUpdate {
    MaxOfficialUpdate {
        update_type: update_type.to_string(),
        message: MaxOfficialMessage {
            sender: Some(MaxOfficialUser {
                first_name: Some("Bob".to_string()),
                name: None,
                username: Some("bob".to_string()),
            }),
            recipient: MaxOfficialRecipient { chat_id: Some(42), user_id: None },
            body: MaxOfficialMessageBody {
                mid: "204".to_string(),
                text: Some("@bookbot add this chart".to_string()),
                attachments,
            },
            timestamp: 1_775_385_600_000,
        },
    }
}

#[test]
fn normalizes_max_official_image_attachment() {
    let update = official(
        "message_created",
        vec![MaxOfficialAttachment {
            attachment_type: "image".to_string(),
            payload: Some(MaxOfficialAttachmentPayload {
                photo_id: Some(12345),
                url: Some("https://cdn.max.ru/photos/chart.jpg".to_string()),
            }),
            filename: None,
            size: None,
            width: None,
            height: None,
        }],
    );
    let normalized = MaxStubAdapter
        .normalize_payload(&MaxPayload::Official(update), "bookbot")
        .unwrap();

    assert_eq!(normalized.provider, Provider::Max);
    assert_eq!(normalized.provider_chat_id, "max:42");
    assert_eq!(normalized.message_id, "204");
    assert!(normalized.mentions_bot);
    assert_eq!(normalized.sender_display_name, "Bob");
    assert_eq!(normalized.attachments.len(), 1);
    let attachment = &normalized.attachments[0];
    assert_eq!(attachment.provider_file_id, "https://cdn.max.ru/photos/chart.jpg");
    assert_eq!(attachment.provider_unique_id.as_deref(), Some("12345"));
    assert_eq!(attachment.mime_type.as_deref(), Some("image/jpeg"));
    assert_eq!(attachment.caption.as_deref(), Some("@bookbot add this chart"));
    assert_eq!(normalized.timestamp, 1_775_385_600_000_000_000);
}

#[test]
fn rejects_max_unsupported_media_attachment() {
    let mut update = official(
        "message_created",
        vec![MaxOfficialAttachment {
            attachment_type: "video".to_string(),
            payload: Some(MaxOfficialAttachmentPayload {
                photo_id: None,
                url: Some("https://cdn.max.ru/video/clip.mp4".to_string()),
            }),
            filename: None,
            size: None,
            width: None,
            height: None,
        }],
    );
    update.message.sender = None;
    update.message.body.mid = "205".to_string();
    update.message.body.text = Some("@bookbot add this clip".to_string());
    let result = MaxStubAdapter.normalize_payload(&MaxPayload::Official(update), "bookbot");

    assert!(result.is_err());
    assert_eq!(
        result.unwrap_err().message(),
        "unsupported MAX attachment type: video"
    );
}

#[test]
fn max_official_errors_come_in_order() {
    let update = official("message_edited", Vec::new());
    let error = normalize_official_payload(Provider::Max, &update, "bookbot").unwrap_err();
    assert_eq!(error.message(), "unsupported MAX update type: message_edited");

    let mut update = official("message_created", Vec::new());
    update.message.recipient = MaxOfficialRecipient { chat_id: None, user_id: Some(7) };
    let normalized = normalize_official_payload(Provider::Max, &update, "bookbot").unwrap();
    assert_eq!(normalized.provider_chat_id, "max:user:7");

    update.message.recipient = MaxOfficialRecipient { chat_id: None, user_id: None };
    let error = normalize_official_payload(Provider::Max, &update, "bookbot").unwrap_err();
    assert_eq!(error, ProviderError::MissingRecipient);
}

#[test]
fn max_attachments_need_payload_and_url() {
    let without_payload = vec![MaxOfficialAttachment {
        attachment_type: "image".to_string(),
        payload: None,
        filename: None,
        size: None,
        width: None,
        height: None,
    }];
    assert_eq!(
        max_attachments(&without_payload, None).unwrap_err(),
        ProviderError::MissingAttachmentPayload
    );
    let without_url = vec![MaxOfficialAttachment {
        attachment_type: "image".to_string(),
        payload: Some(MaxOfficialAttachmentPayload { photo_id: None, url: None }),
        filename: None,
        size: None,
        width: None,
        height: None,
    }];
    assert_eq!(
        max_attachments(&without_url, Some("x")).unwrap_err(),
        ProviderError::MissingAttachmentUrl
    );
}

#[test]
fn normalizes_max_legacy_attachment_fixture_shape() {
    let payload = MaxWebhook {
        room_id: "room-42".to_string(),
        message_id: "204".to_string(),
        timestamp: "2026-04-05T10:10:00Z".to_string(),
        text: "@bookbot add this chart".to_string(),
        sender_display_name: Some("Bob".to_string()),
        attachments: vec![MessageAttachment {
            kind: MessageAttachmentKind::Image,
            provider_file_id: "max-file-1".to_string(),
            provider_unique_id: Some("max-unique-1".to_string()),
            original_filename: Some("chart.png".to_string()),
            mime_type: Some("image/png".to_string()),
            width: Some(640),
            height: Some(480),
            file_size: Some(12345),
            caption: Some("A chart".to_string()),
        }],
    };
    let normalized = MaxStubAdapter
        .normalize_payload(&MaxPayload::Legacy(payload), "bookbot")
        .unwrap();

    assert_eq!(normalized.attachments.len(), 1);
    assert_eq!(normalized.attachments[0].provider_file_id, "max-file-1");
    assert_eq!(normalized.attachments[0].original_filename.as_deref(), Some("chart.png"));
    assert_eq!(normalized.provider_chat_id, "max:room-42");
    assert!(normalized.mentions_bot);
    assert_eq!(normalized.sender_display_name, "Bob");
}

#[test]
fn max_legacy_timestamp_must_parse() {
    let payload = MaxWebhook {
        room_id: "room-42".to_string(),
        message_id: "1".to_string(),
        timestamp: "yesterday".to_string(),
        text: "hi".to_string(),
        sender_display_name: None,
        attachments: Vec::new(),
    };
    let error = MaxStubAdapter
        .normalize_payload(&MaxPayload::Legacy(payload), "bookbot")
        .unwrap_err();
    assert_eq!(error, ProviderError::InvalidMaxTimestamp);
}

fn fixture_timestamp(y: i32, mo: u32, d: u32, h: u32, mi: u32) -> i64 {
    chrono::TimeZone::with_ymd_and_hms(&chrono::Utc, y, mo, d, h, mi, 0).unwrap().timestamp_nanos_opt().unwrap()
}

fn telegram_fixture(message_id: i64, text: &str) -> TelegramWebhook {
    let mut message = telegram_message(Some(text), None);
    message.message_id = message_id;
    message.date = 1_775_383_200;
    message.chat = TelegramChat { id: 123456, title: Some("Book chat".to_string()) };
    TelegramWebhook { message }
}

#[test]
fn normalizes_telegram_init_fixture() {
    let normalized = TelegramAdapter
        .normalize_payload(&telegram_fixture(101, "/bookbot init"), "bookbot")
        .unwrap();
    assert_eq!(normalized.provider, Provider::Telegram);
    assert_eq!(normalized.provider_chat_id, "telegram:123456");
    assert_eq!(normalized.message_id, "101");
    assert_eq!(normalized.timestamp, fixture_timestamp(2026, 4, 5, 10, 0));
    assert_eq!(normalized.raw_text, "/bookbot init");
    assert!(normalized.mentions_bot);
    assert_eq!(normalized.sender_display_name, "Alice");
}

#[test]
fn normalizes_telegram_reply_authoring_fixture() {
    let mut webhook = telegram_fixture(
        102,
        "Write an introductory chapter about habit formation for busy parents.",
    );
    webhook.message.reply_to_message =
        Some(ReplyToMessage { from: Some(ReplyUser { username: Some("bookbot".to_string()) }) });
    let normalized = TelegramAdapter.normalize_payload(&webhook, "bookbot").unwrap();
    assert!(normalized.mentions_bot);
    assert_eq!(
        normalized.raw_text,
        "Write an introductory chapter about habit formation for busy parents."
    );
}

#[test]
fn normalizes_telegram_ignored_fixture() {
    let normalized = TelegramAdapter
        .normalize_payload(&telegram_fixture(103, "Just chatting with friends here."), "bookbot")
        .unwrap();
    assert!(!normalized.mentions_bot);
}

fn max_fixture(message_id: &str, text: &str) -> MaxPayload {
    MaxPayload::Legacy(MaxWebhook {
        room_id: "room-42".to_string(),
        message_id: message_id.to_string(),
        timestamp: "2026-04-05T10:05:00Z".to_string(),
        text: text.to_string(),
        sender_display_name: Some("Bob".to_string()),
        attachments: Vec::new(),
    })
}

#[test]
fn normalizes_max_init_fixture() {
    let normalized = MaxStubAdapter
        .normalize_payload(&max_fixture("201", "@bookbot init"), "bookbot")
        .unwrap();
    assert_eq!(normalized.provider, Provider::Max);
    assert_eq!(normalized.provider_chat_id, "max:room-42");
    assert_eq!(normalized.message_id, "201");
    assert_eq!(normalized.timestamp, fixture_timestamp(2026, 4, 5, 10, 5));
    assert!(normalized.mentions_bot);
    assert_eq!(normalized.sender_display_name, "Bob");
}

#[test]
fn normalizes_max_ignored_fixture() {
    let normalized = MaxStubAdapter
        .normalize_payload(&max_fixture("202", "Talking among ourselves."), "bookbot")
        .unwrap();
    assert!(!normalized.mentions_bot);
}

fn photo(id: &str, width: u32, height: u32, file_size: Option<u64>) -> TelegramPhotoSize {
    TelegramPhotoSize { file_id: id.to_string(), file_unique_id: id.to_string(), width, height, file_size }
}

#[test]
fn telegram_largest_photo_is_chosen_wherever_it_sits() {
    let mut message = telegram_message(Some("@bookbot"), None);
    message.photo = Some(vec![
        photo("small", 100, 100, Some(10)),
        photo("largest", 50, 50, Some(500)),
        photo("wide", 4000, 4000, Some(400)),
        photo("same-size-smaller-area", 10, 10, Some(500)),
    ]);
    let normalized = TelegramAdapter
        .normalize_payload(&TelegramWebhook { message }, "bookbot")
        .unwrap();
    assert_eq!(normalized.attachments.len(), 1);
    assert_eq!(normalized.attachments[0].provider_file_id, "largest");
    assert_eq!(normalized.attachments[0].mime_type.as_deref(), Some("image/jpeg"));
}
