//! Inbound messenger payloads (Telegram and MAX) turned into one normalized message.
use vstd::prelude::*;

use crate::models::{
    AttachmentView, MessageAttachment, MessageAttachmentKind, NormalizedMessage, Provider,
    attachment_views, copy_text, opt_text,
};
use crate::text::{
    chars_of, decimal_i64, has_prefix, push_all, push_str, signed_decimal, starts_with, string_of,
    trim, trim_seq, trim_start, trim_start_seq, chars_eq,
};

verus! {

broadcast use vstd::string::group_string_axioms;

/// Why a messenger payload could not be normalized.
#[derive(Debug, Clone, PartialEq, Eq)]
pub enum ProviderError {
    InvalidTelegramTimestamp,
    InvalidMaxTimestamp,
    UnsupportedUpdateType { update_type: String },
    MissingRecipient,
    UnsupportedAttachmentType { attachment_type: String },
    MissingAttachmentPayload,
    MissingAttachmentUrl,
}

/// The mathematical form of a provider error.
pub enum ProviderErrorView {
    InvalidTelegramTimestamp,
    InvalidMaxTimestamp,
    UnsupportedUpdateType(Seq<char>),
    MissingRecipient,
    UnsupportedAttachmentType(Seq<char>),
    MissingAttachmentPayload,
    MissingAttachmentUrl,
}

impl View for ProviderError {
    type V = ProviderErrorView;

    open spec fn view(&self) -> ProviderErrorView {
        match self {
            ProviderError::InvalidTelegramTimestamp => ProviderErrorView::InvalidTelegramTimestamp,
            ProviderError::InvalidMaxTimestamp => ProviderErrorView::InvalidMaxTimestamp,
            ProviderError::UnsupportedUpdateType { update_type } =>
                ProviderErrorView::UnsupportedUpdateType(update_type@),
            ProviderError::MissingRecipient => ProviderErrorView::MissingRecipient,
            ProviderError::UnsupportedAttachmentType { attachment_type } =>
                ProviderErrorView::UnsupportedAttachmentType(attachment_type@),
            ProviderError::MissingAttachmentPayload => ProviderErrorView::MissingAttachmentPayload,
            ProviderError::MissingAttachmentUrl => ProviderErrorView::MissingAttachmentUrl,
        }
    }
}

impl ProviderError {
    /// The message shown for the error.
    pub fn message(&self) -> (r: String)
        ensures
            r@ == match self@ {
                ProviderErrorView::InvalidTelegramTimestamp => "invalid telegram timestamp"@,
                ProviderErrorView::InvalidMaxTimestamp => "invalid MAX timestamp"@,
                ProviderErrorView::UnsupportedUpdateType(t) => "unsupported MAX update type: "@ + t,
                ProviderErrorView::MissingRecipient =>
                    "MAX message recipient did not include chat_id or user_id"@,
                ProviderErrorView::UnsupportedAttachmentType(t) =>
                    "unsupported MAX attachment type: "@ + t,
                ProviderErrorView::MissingAttachmentPayload =>
                    "MAX image attachment did not include payload"@,
                ProviderErrorView::MissingAttachmentUrl =>
                    "MAX image attachment did not include url"@,
            },
    {
        match self {
            ProviderError::InvalidTelegramTimestamp => "invalid telegram timestamp".to_string(),
            ProviderError::InvalidMaxTimestamp => "invalid MAX timestamp".to_string(),
            ProviderError::UnsupportedUpdateType { update_type } => {
                let mut v = chars_of("unsupported MAX update type: ");
                push_all(&mut v, chars_of(update_type.as_str()).as_slice());
                string_of(v.as_slice())
            },
            ProviderError::MissingRecipient =>
                "MAX message recipient did not include chat_id or user_id".to_string(),
            ProviderError::UnsupportedAttachmentType { attachment_type } => {
                let mut v = chars_of("unsupported MAX attachment type: ");
                push_all(&mut v, chars_of(attachment_type.as_str()).as_slice());
                string_of(v.as_slice())
            },
            ProviderError::MissingAttachmentPayload =>
                "MAX image attachment did not include payload".to_string(),
            ProviderError::MissingAttachmentUrl =>
                "MAX image attachment did not include url".to_string(),
        }
    }
}

/// The instant, in nanoseconds since the Unix epoch, `secs` seconds after it, when that
/// fits in an `i64` (`Utc.timestamp_opt(secs, 0)` then `timestamp_nanos_opt`).
#[verifier::external_body]
fn utc_seconds_to_nanos(secs: i64) -> (r: Option<i64>)
    ensures
        r matches Some(n) ==> n == secs * 1_000_000_000,
        i64::MIN <= secs * 1_000_000_000 <= i64::MAX ==> r is Some,
{
    chrono::TimeZone::timestamp_opt(&chrono::Utc, secs, 0).single().and_then(
        |d| d.timestamp_nanos_opt(),
    )
}

/// The instant, in nanoseconds since the Unix epoch, `ms` milliseconds after it, when
/// that fits in an `i64` (`DateTime::<Utc>::from_timestamp_millis` then
/// `timestamp_nanos_opt`).
#[verifier::external_body]
fn utc_millis_to_nanos(ms: i64) -> (r: Option<i64>)
    ensures
        r matches Some(n) ==> n == ms * 1_000_000,
        i64::MIN <= ms * 1_000_000 <= i64::MAX ==> r is Some,
{
    chrono::DateTime::<chrono::Utc>::from_timestamp_millis(ms).and_then(|d| d.timestamp_nanos_opt())
}

/// The instant, in nanoseconds since the Unix epoch, that chrono reads from a date-time
/// text with `str::parse::<DateTime<Utc>>`, when it reads one that fits in an `i64`.
pub uninterp spec fn utc_text_instant(s: Seq<char>) -> Option<i64>;

/// Parses a date-time text as chrono's `FromStr` for `DateTime<Utc>` does.
#[verifier::external_body]
fn parse_utc_text(value: &str) -> (r: Option<i64>)
    ensures
        r == utc_text_instant(value@),
{
    value.parse::<chrono::DateTime<chrono::Utc>>().ok().and_then(|d| d.timestamp_nanos_opt())
}

/// The nanosecond instant of a seconds timestamp, when it fits.
pub open spec fn seconds_instant(secs: i64) -> Option<i64> {
    if i64::MIN <= secs * 1_000_000_000 <= i64::MAX {
        Some((secs * 1_000_000_000) as i64)
    } else {
        None
    }
}

/// The nanosecond instant of a milliseconds timestamp, when it fits.
pub open spec fn millis_instant(ms: i64) -> Option<i64> {
    if i64::MIN <= ms * 1_000_000 <= i64::MAX {
        Some((ms * 1_000_000) as i64)
    } else {
        None
    }
}

// ---------------------------------------------------------------------------------------
// Telegram
// ---------------------------------------------------------------------------------------

/// The Telegram adapter.
#[derive(Debug, Default, Clone, Copy)]
pub struct TelegramAdapter;

/// A Telegram webhook update.
pub struct TelegramWebhook {
    pub message: TelegramMessage,
}

/// A Telegram message.
pub struct TelegramMessage {
    pub message_id: i64,
    /// Seconds since the Unix epoch.
    pub date: i64,
    pub text: Option<String>,
    pub caption: Option<String>,
    pub photo: Option<Vec<TelegramPhotoSize>>,
    pub document: Option<TelegramDocument>,
    pub chat: TelegramChat,
    pub from: Option<TelegramUser>,
    pub reply_to_message: Option<ReplyToMessage>,
}

/// The chat a Telegram message was sent in.
pub struct TelegramChat {
    pub id: i64,
    pub title: Option<String>,
}

/// The sender of a Telegram message.
pub struct TelegramUser {
    pub first_name: Option<String>,
    pub username: Option<String>,
}

/// The message a Telegram message replies to.
pub struct ReplyToMessage {
    pub from: Option<ReplyUser>,
}

/// The sender of the message replied to.
pub struct ReplyUser {
    pub username: Option<String>,
}

/// One size of a Telegram photo.
pub struct TelegramPhotoSize {
    pub file_id: String,
    pub file_unique_id: String,
    pub width: u32,
    pub height: u32,
    pub file_size: Option<u64>,
}

/// A file sent as a Telegram document.
pub struct TelegramDocument {
    pub file_id: String,
    pub file_unique_id: String,
    pub file_name: Option<String>,
    pub mime_type: Option<String>,
    pub file_size: Option<u64>,
}

/// The text of a Telegram message: its text, else its caption, else nothing.
pub open spec fn telegram_text(m: TelegramMessage) -> Seq<char> {
    match m.text {
        Some(t) => t@,
        None => match m.caption {
            Some(c) => c@,
            None => seq![],
        },
    }
}

/// The username of the sender of the message replied to, if known.
pub open spec fn reply_username(m: TelegramMessage) -> Option<Seq<char>> {
    match m.reply_to_message {
        Some(r) => match r.from {
            Some(u) => opt_text(u.username),
            None => None,
        },
        None => None,
    }
}

/// Whether a Telegram message is addressed to the bot: its text (leading whitespace
/// dropped) starts with `@bot`, `/bookbot` or `/bot`, or it is a non-blank reply to one of
/// the bot's messages.
pub open spec fn mentions_bot_spec(m: TelegramMessage, bot: Seq<char>) -> bool {
    let t = trim_start_seq(telegram_text(m));
    ||| has_prefix(t, seq!['@'] + bot)
    ||| has_prefix(t, "/bookbot"@)
    ||| has_prefix(t, seq!['/'] + bot)
    ||| (reply_username(m) == Some(bot) && t.len() > 0)
}

fn text_of(m: &TelegramMessage) -> (r: Vec<char>)
    ensures
        r@ == telegram_text(*m),
{
    match &m.text {
        Some(t) => chars_of(t.as_str()),
        None => match &m.caption {
            Some(c) => chars_of(c.as_str()),
            None => Vec::new(),
        },
    }
}

/// Whether a Telegram message is addressed to the bot `bot_username`.
pub fn telegram_mentions_bot(message: &TelegramMessage, bot_username: &str) -> (r: bool)
    ensures
        r == mentions_bot_spec(*message, bot_username@),
{
    let text = text_of(message);
    let trimmed = trim_start(text.as_slice());
    let bot = chars_of(bot_username);
    let mut at = chars_of("@");
    push_all(&mut at, bot.as_slice());
    let mut slash = chars_of("/");
    push_all(&mut slash, bot.as_slice());
    proof {
        reveal_strlit("@");
        reveal_strlit("/");
    }
    assert(at@ =~= seq!['@'] + bot_username@);
    assert(slash@ =~= seq!['/'] + bot_username@);
    if starts_with(trimmed.as_slice(), at.as_slice()) || starts_with(
        trimmed.as_slice(),
        chars_of("/bookbot").as_slice(),
    ) || starts_with(trimmed.as_slice(), slash.as_slice()) {
        return true;
    }
    let replied_to_bot = match &message.reply_to_message {
        Some(reply) => match &reply.from {
            Some(user) => match &user.username {
                Some(name) => chars_eq(chars_of(name.as_str()).as_slice(), bot.as_slice()),
                None => false,
            },
            None => false,
        },
        None => false,
    };
    replied_to_bot && trimmed.len() > 0
}

/// Whether photo size `p` ranks no higher than `q`: by file size (unknown counts as 0),
/// then by pixel count.
pub open spec fn photo_le(p: TelegramPhotoSize, q: TelegramPhotoSize) -> bool {
    let ps = match p.file_size {
        Some(s) => s as int,
        None => 0,
    };
    let qs = match q.file_size {
        Some(s) => s as int,
        None => 0,
    };
    ps < qs || (ps == qs && p.width * p.height <= q.width * q.height)
}

/// The position of the highest-ranked photo size, the last of equals
/// (`Iterator::max_by_key`).
pub open spec fn best_photo(s: Seq<TelegramPhotoSize>) -> Option<int>
    decreases s.len(),
{
    if s.len() == 0 {
        None
    } else {
        match best_photo(s.drop_last()) {
            None => Some(s.len() - 1),
            Some(i) => if photo_le(s[i], s.last()) {
                Some(s.len() - 1)
            } else {
                Some(i)
            },
        }
    }
}

proof fn lemma_best_photo_range(s: Seq<TelegramPhotoSize>)
    ensures
        best_photo(s) matches Some(i) ==> 0 <= i < s.len(),
        s.len() > 0 ==> best_photo(s) is Some,
    decreases s.len(),
{
    if s.len() > 0 {
        lemma_best_photo_range(s.drop_last());
    }
}

/// The photo size chosen for a Telegram message ranks highest, by file size (unknown counts
/// as 0) and then pixel count, wherever it sits in the list: every size ranks no higher,
/// and every size after it ranks strictly lower, so of equals the last is taken.
pub proof fn law_best_photo_is_the_maximum(s: Seq<TelegramPhotoSize>)
    ensures
        s.len() > 0 ==> best_photo(s) is Some,
        best_photo(s) matches Some(i) ==> {
            &&& 0 <= i < s.len()
            &&& forall|j: int| 0 <= j < s.len() ==> photo_le(#[trigger] s[j], s[i])
            &&& forall|j: int| i < j < s.len() ==> !photo_le(s[i], #[trigger] s[j])
        },
    decreases s.len(),
{
    if s.len() > 0 {
        let t = s.drop_last();
        law_best_photo_is_the_maximum(t);
        let n = s.len() - 1;
        match best_photo(t) {
            None => {
                assert(photo_le(s[0], s[0]));
            },
            Some(k) => {
                assert forall|j: int| 0 <= j < n implies photo_le(#[trigger] s[j], s[k]) by {
                    assert(t[j] == s[j]);
                }
                assert forall|j: int| k < j < n implies !photo_le(s[k], #[trigger] s[j]) by {
                    assert(t[j] == s[j]);
                }
                assert(photo_le(s[n], s[n]));
            },
        }
    }
}

/// The caption of a Telegram message trimmed, unless blank.
pub open spec fn caption_spec(m: TelegramMessage) -> Option<Seq<char>> {
    match m.caption {
        Some(c) => if trim_seq(c@).len() > 0 {
            Some(trim_seq(c@))
        } else {
            None
        },
        None => None,
    }
}

/// The attachment of a Telegram message: its largest photo, else its document when that
/// is an image, else none.
pub open spec fn telegram_attachments_spec(m: TelegramMessage) -> Seq<AttachmentView> {
    let best = match m.photo {
        Some(v) => best_photo(v@),
        None => None,
    };
    match best {
        Some(i) => {
            let p = m.photo.unwrap()@[i];
            seq![
                AttachmentView {
                    kind: MessageAttachmentKind::Image,
                    provider_file_id: p.file_id@,
                    provider_unique_id: Some(p.file_unique_id@),
                    original_filename: None,
                    mime_type: Some("image/jpeg"@),
                    width: Some(p.width),
                    height: Some(p.height),
                    file_size: p.file_size,
                    caption: caption_spec(m),
                },
            ]
        },
        None => match m.document {
            Some(d) => if d.mime_type matches Some(mt) && has_prefix(mt@, "image/"@) {
                seq![
                    AttachmentView {
                        kind: MessageAttachmentKind::Image,
                        provider_file_id: d.file_id@,
                        provider_unique_id: Some(d.file_unique_id@),
                        original_filename: opt_text(d.file_name),
                        mime_type: opt_text(d.mime_type),
                        width: None,
                        height: None,
                        file_size: d.file_size,
                        caption: caption_spec(m),
                    },
                ]
            } else {
                seq![]
            },
            None => seq![],
        },
    }
}

fn trimmed_caption(m: &TelegramMessage) -> (r: Option<String>)
    ensures
        opt_text(r) == caption_spec(*m),
{
    match &m.caption {
        Some(c) => {
            let t = trim(chars_of(c.as_str()).as_slice());
            if t.len() > 0 {
                Some(string_of(t.as_slice()))
            } else {
                None
            }
        },
        None => None,
    }
}

fn photo_at_most(p: &TelegramPhotoSize, q: &TelegramPhotoSize) -> (r: bool)
    ensures
        r == photo_le(*p, *q),
{
    let ps: u64 = match p.file_size {
        Some(s) => s,
        None => 0,
    };
    let qs: u64 = match q.file_size {
        Some(s) => s,
        None => 0,
    };
    let pw = p.width as u64;
    let ph = p.height as u64;
    let qw = q.width as u64;
    let qh = q.height as u64;
    assert(pw * ph <= 0xFFFF_FFFE_0000_0001) by (nonlinear_arith)
        requires
            pw <= 0xFFFF_FFFF,
            ph <= 0xFFFF_FFFF,
    ;
    assert(qw * qh <= 0xFFFF_FFFE_0000_0001) by (nonlinear_arith)
        requires
            qw <= 0xFFFF_FFFF,
            qh <= 0xFFFF_FFFF,
    ;
    let pa = pw * ph;
    let qa = qw * qh;
    ps < qs || (ps == qs && pa <= qa)
}

fn largest_photo(sizes: &Vec<TelegramPhotoSize>) -> (r: Option<usize>)
    ensures
        match r {
            Some(i) => best_photo(sizes@) == Some(i as int) && i < sizes@.len(),
            None => best_photo(sizes@) is None,
        },
{
    let mut best: Option<usize> = None;
    let mut i: usize = 0;
    assert(sizes@.take(0) =~= Seq::<TelegramPhotoSize>::empty());
    while i < sizes.len()
        invariant
            i <= sizes@.len(),
            match best {
                Some(b) => best_photo(sizes@.take(i as int)) == Some(b as int) && b < i,
                None => best_photo(sizes@.take(i as int)) is None,
            },
        decreases sizes.len() - i,
    {
        let ghost t = sizes@.take(i + 1);
        assert(t.drop_last() =~= sizes@.take(i as int));
        assert(t.last() == sizes@[i as int]);
        match best {
            None => {
                best = Some(i);
            },
            Some(b) => {
                assert(t[b as int] == sizes@[b as int]);
                if photo_at_most(&sizes[b], &sizes[i]) {
                    best = Some(i);
                }
            },
        }
        i = i + 1;
    }
    assert(sizes@.take(sizes@.len() as int) =~= sizes@);
    best
}

fn image_attachment(
    file_id: &String,
    unique_id: &String,
    original_filename: Option<String>,
    mime_type: Option<String>,
    width: Option<u32>,
    height: Option<u32>,
    file_size: Option<u64>,
    caption: Option<String>,
) -> (r: MessageAttachment)
    ensures
        r@ == (AttachmentView {
            kind: MessageAttachmentKind::Image,
            provider_file_id: file_id@,
            provider_unique_id: Some(unique_id@),
            original_filename: opt_text(original_filename),
            mime_type: opt_text(mime_type),
            width,
            height,
            file_size,
            caption: opt_text(caption),
        }),
{
    MessageAttachment {
        kind: MessageAttachmentKind::Image,
        provider_file_id: file_id.clone(),
        provider_unique_id: Some(unique_id.clone()),
        original_filename,
        mime_type,
        width,
        height,
        file_size,
        caption,
    }
}

/// The attachments of a Telegram message.
pub fn telegram_attachments(message: &TelegramMessage) -> (r: Vec<MessageAttachment>)
    ensures
        attachment_views(r@) == telegram_attachments_spec(*message),
{
    let caption = trimmed_caption(message);
    let best = match &message.photo {
        Some(sizes) => match largest_photo(sizes) {
            Some(i) => Some((sizes, i)),
            None => None,
        },
        None => None,
    };
    match best {
        Some((sizes, i)) => {
            let p = &sizes[i];
            let a = image_attachment(
                &p.file_id,
                &p.file_unique_id,
                None,
                Some("image/jpeg".to_string()),
                Some(p.width),
                Some(p.height),
                p.file_size,
                caption,
            );
            let v = vec![a];
            assert(attachment_views(v@) =~= telegram_attachments_spec(*message));
            v
        },
        None => {
            let is_image = match &message.document {
                Some(d) => match &d.mime_type {
                    Some(mt) => starts_with(
                        chars_of(mt.as_str()).as_slice(),
                        chars_of("image/").as_slice(),
                    ),
                    None => false,
                },
                None => false,
            };
            match &message.document {
                Some(d) => {
                    if is_image {
                        let a = image_attachment(
                            &d.file_id,
                            &d.file_unique_id,
                            copy_text(&d.file_name),
                            copy_text(&d.mime_type),
                            None,
                            None,
                            d.file_size,
                            caption,
                        );
                        let v = vec![a];
                        assert(attachment_views(v@) =~= telegram_attachments_spec(*message));
                        v
                    } else {
                        let v: Vec<MessageAttachment> = Vec::new();
                        assert(attachment_views(v@) =~= telegram_attachments_spec(*message));
                        v
                    }
                },
                None => {
                    let v: Vec<MessageAttachment> = Vec::new();
                    assert(attachment_views(v@) =~= telegram_attachments_spec(*message));
                    v
                },
            }
        },
    }
}

/// The display name of the sender of a Telegram message.
pub open spec fn telegram_sender_spec(m: TelegramMessage) -> Seq<char> {
    match m.from {
        Some(u) => match u.first_name {
            Some(n) => n@,
            None => "Telegram user"@,
        },
        None => "Telegram user"@,
    }
}

/// Whether `n` is the normalized form of Telegram message `m` for bot `bot`, received at
/// instant `at`.
pub open spec fn is_telegram_normalized(
    n: NormalizedMessage,
    m: TelegramMessage,
    bot: Seq<char>,
    at: i64,
) -> bool {
    &&& n.provider == Provider::Telegram
    &&& n.provider_chat_id@ == "telegram:"@ + signed_decimal(m.chat.id as int)
    &&& n.message_id@ == signed_decimal(m.message_id as int)
    &&& n.timestamp == at
    &&& n.raw_text@ == telegram_text(m)
    &&& attachment_views(n.attachments@) == telegram_attachments_spec(m)
    &&& n.mentions_bot == mentions_bot_spec(m, bot)
    &&& n.sender_display_name@ == telegram_sender_spec(m)
}

impl TelegramAdapter {
    /// The provider this adapter serves.
    pub fn provider(&self) -> (r: Provider)
        ensures
            r == Provider::Telegram,
    {
        Provider::Telegram
    }

    /// Normalizes a Telegram update for bot `bot_identity`; refused when its date does not
    /// fit the timestamp range.
    pub fn normalize_payload(&self, payload: &TelegramWebhook, bot_identity: &str) -> (r: Result<
        NormalizedMessage,
        ProviderError,
    >)
        ensures
            match seconds_instant(payload.message.date) {
                None => r matches Err(e) && e@ == ProviderErrorView::InvalidTelegramTimestamp,
                Some(at) => r matches Ok(n) && is_telegram_normalized(
                    n,
                    payload.message,
                    bot_identity@,
                    at,
                ),
            },
    {
        let m = &payload.message;
        let timestamp = match utc_seconds_to_nanos(m.date) {
            Some(t) => t,
            None => {
                return Err(ProviderError::InvalidTelegramTimestamp);
            },
        };
        let mut chat = chars_of("telegram:");
        push_all(&mut chat, decimal_i64(m.chat.id).as_slice());
        let sender = match &m.from {
            Some(u) => match &u.first_name {
                Some(n) => n.clone(),
                None => "Telegram user".to_string(),
            },
            None => "Telegram user".to_string(),
        };
        Ok(NormalizedMessage {
            provider: self.provider(),
            provider_chat_id: string_of(chat.as_slice()),
            message_id: string_of(decimal_i64(m.message_id).as_slice()),
            timestamp,
            raw_text: string_of(text_of(m).as_slice()),
            attachments: telegram_attachments(m),
            mentions_bot: telegram_mentions_bot(m, bot_identity),
            sender_display_name: sender,
        })
    }
}

// ---------------------------------------------------------------------------------------
// MAX
// ---------------------------------------------------------------------------------------

/// The MAX adapter.
#[derive(Debug, Default, Clone, Copy)]
pub struct MaxStubAdapter;

/// A MAX update in the older room-based shape.
pub struct MaxWebhook {
    pub room_id: String,
    pub message_id: String,
    pub timestamp: String,
    pub text: String,
    pub sender_display_name: Option<String>,
    pub attachments: Vec<MessageAttachment>,
}

/// A MAX update in the official Bot API shape.
pub struct MaxOfficialUpdate {
    pub update_type: String,
    pub message: MaxOfficialMessage,
}

/// The message of an official MAX update.
pub struct MaxOfficialMessage {
    pub sender: Option<MaxOfficialUser>,
    pub recipient: MaxOfficialRecipient,
    pub body: MaxOfficialMessageBody,
    /// Milliseconds since the Unix epoch.
    pub timestamp: i64,
}

/// The sender of a MAX message.
pub struct MaxOfficialUser {
    pub first_name: Option<String>,
    pub name: Option<String>,
    pub username: Option<String>,
}

/// Where a MAX message was sent: a chat, or a user directly.
pub struct MaxOfficialRecipient {
    pub chat_id: Option<i64>,
    pub user_id: Option<i64>,
}

/// The body of a MAX message.
pub struct MaxOfficialMessageBody {
    pub mid: String,
    pub text: Option<String>,
    pub attachments: Vec<MaxOfficialAttachment>,
}

/// An attachment of a MAX message.
pub struct MaxOfficialAttachment {
    pub attachment_type: String,
    pub payload: Option<MaxOfficialAttachmentPayload>,
    pub filename: Option<String>,
    pub size: Option<u64>,
    pub width: Option<u32>,
    pub height: Option<u32>,
}

/// Where a MAX image can be fetched from.
pub struct MaxOfficialAttachmentPayload {
    pub photo_id: Option<i64>,
    pub url: Option<String>,
}

/// A MAX update in either shape.
pub enum MaxPayload {
    Official(MaxOfficialUpdate),
    Legacy(MaxWebhook),
}

/// The attachment a MAX attachment becomes, or why it is refused: only images with a
/// payload that has a URL are accepted.
pub open spec fn max_attachment_spec(a: MaxOfficialAttachment, caption: Option<Seq<char>>) -> Result<
    AttachmentView,
    ProviderErrorView,
> {
    if a.attachment_type@ != "image"@ {
        Err(ProviderErrorView::UnsupportedAttachmentType(a.attachment_type@))
    } else {
        match a.payload {
            None => Err(ProviderErrorView::MissingAttachmentPayload),
            Some(p) => match p.url {
                None => Err(ProviderErrorView::MissingAttachmentUrl),
                Some(url) => Ok(
                    AttachmentView {
                        kind: MessageAttachmentKind::Image,
                        provider_file_id: url@,
                        provider_unique_id: match p.photo_id {
                            Some(id) => Some(signed_decimal(id as int)),
                            None => None,
                        },
                        original_filename: opt_text(a.filename),
                        mime_type: Some("image/jpeg"@),
                        width: a.width,
                        height: a.height,
                        file_size: a.size,
                        caption,
                    },
                ),
            },
        }
    }
}

/// The attachments the first `n` MAX attachments become, or the refusal of the first
/// that is refused.
pub open spec fn max_attachments_spec(
    s: Seq<MaxOfficialAttachment>,
    caption: Option<Seq<char>>,
    n: nat,
) -> Result<Seq<AttachmentView>, ProviderErrorView>
    decreases n,
{
    if n == 0 {
        Ok(seq![])
    } else {
        match max_attachments_spec(s, caption, (n - 1) as nat) {
            Err(e) => Err(e),
            Ok(prev) => match max_attachment_spec(s[n - 1], caption) {
                Err(e) => Err(e),
                Ok(a) => Ok(prev.push(a)),
            },
        }
    }
}

/// A MAX attachment that normalizes: an image whose payload has a URL.
pub open spec fn max_image_with_url(a: MaxOfficialAttachment) -> bool {
    &&& a.attachment_type@ == "image"@
    &&& (a.payload matches Some(p) && p.url is Some)
}

/// Normalizing the first `n` MAX attachments keeps every one of them, in order: it succeeds
/// exactly when each is an image with a URL, and then gives one image attachment per
/// attachment, the `i`-th fetched from the `i`-th attachment's URL, with its file name and
/// sizes and the message's caption.
pub proof fn law_max_attachments_keep_every_image(
    s: Seq<MaxOfficialAttachment>,
    caption: Option<Seq<char>>,
    n: nat,
)
    requires
        n <= s.len(),
    ensures
        max_attachments_spec(s, caption, n) is Ok <==> forall|i: int|
            0 <= i < n ==> max_image_with_url(#[trigger] s[i]),
        max_attachments_spec(s, caption, n) matches Ok(v) ==> {
            &&& v.len() == n
            &&& forall|i: int|
                0 <= i < n ==> {
                    &&& max_attachment_spec(s[i], caption) == Ok::<
                        AttachmentView,
                        ProviderErrorView,
                    >(#[trigger] v[i])
                    &&& v[i].kind == MessageAttachmentKind::Image
                    &&& Some(v[i].provider_file_id) == opt_text(s[i].payload->Some_0.url)
                    &&& v[i].original_filename == opt_text(s[i].filename)
                    &&& v[i].width == s[i].width && v[i].height == s[i].height
                    &&& v[i].file_size == s[i].size
                    &&& v[i].caption == caption
                }
        },
    decreases n,
{
    if n > 0 {
        law_max_attachments_keep_every_image(s, caption, (n - 1) as nat);
        let k = n - 1;
        match max_attachments_spec(s, caption, (n - 1) as nat) {
            Ok(prev) => {
                match max_attachment_spec(s[k], caption) {
                    Ok(a) => {
                        let v = prev.push(a);
                        assert forall|i: int| 0 <= i < n implies max_image_with_url(#[trigger] s[i]) by {
                            if i < k {
                                assert(max_image_with_url(s[i]));
                            }
                        }
                        assert forall|i: int| 0 <= i < k implies v[i] == prev[i] by {}
                    },
                    Err(_) => {
                        assert(!max_image_with_url(s[k]));
                    },
                }
            },
            Err(_) => {
                let i0 = choose|i: int| 0 <= i < k && !max_image_with_url(#[trigger] s[i]);
                assert(!max_image_with_url(s[i0]));
            },
        }
    }
}

fn text_is(s: &String, lit: &str) -> (r: bool)
    ensures
        r == (s@ == lit@),
{
    chars_eq(chars_of(s.as_str()).as_slice(), chars_of(lit).as_slice())
}

fn max_attachment(a: &MaxOfficialAttachment, caption: Option<&str>) -> (r: Result<
    MessageAttachment,
    ProviderError,
>)
    ensures
        match max_attachment_spec(*a, crate::html::opt_str_view(caption)) {
            Ok(v) => r matches Ok(m) && m@ == v,
            Err(e) => r matches Err(f) && f@ == e,
        },
{
    if !text_is(&a.attachment_type, "image") {
        return Err(ProviderError::UnsupportedAttachmentType {
            attachment_type: a.attachment_type.clone(),
        });
    }
    let payload = match &a.payload {
        Some(p) => p,
        None => {
            return Err(ProviderError::MissingAttachmentPayload);
        },
    };
    let url = match &payload.url {
        Some(u) => u,
        None => {
            return Err(ProviderError::MissingAttachmentUrl);
        },
    };
    Ok(MessageAttachment {
        kind: MessageAttachmentKind::Image,
        provider_file_id: url.clone(),
        provider_unique_id: match payload.photo_id {
            Some(id) => Some(string_of(decimal_i64(id).as_slice())),
            None => None,
        },
        original_filename: copy_text(&a.filename),
        mime_type: Some("image/jpeg".to_string()),
        width: a.width,
        height: a.height,
        file_size: a.size,
        caption: match caption {
            Some(c) => Some(c.to_string()),
            None => None,
        },
    })
}

/// The attachments of a MAX message, each carrying `caption`; refused at the first
/// attachment that is not an image or lacks its payload or URL.
pub fn max_attachments(attachments: &Vec<MaxOfficialAttachment>, caption: Option<&str>) -> (r: Result<
    Vec<MessageAttachment>,
    ProviderError,
>)
    ensures
        match max_attachments_spec(
            attachments@,
            crate::html::opt_str_view(caption),
            attachments@.len(),
        ) {
            Ok(v) => r matches Ok(out) && attachment_views(out@) == v,
            Err(e) => r matches Err(f) && f@ == e,
        },
{
    let mut out: Vec<MessageAttachment> = Vec::new();
    let mut i: usize = 0;
    assert(attachment_views(out@) =~= seq![]);
    while i < attachments.len()
        invariant
            i <= attachments@.len(),
            max_attachments_spec(attachments@, crate::html::opt_str_view(caption), i as nat)
                == Ok::<Seq<AttachmentView>, ProviderErrorView>(attachment_views(out@)),
        decreases attachments.len() - i,
    {
        match max_attachment(&attachments[i], caption) {
            Err(e) => {
                proof {
                    lemma_max_attachments_stop(
                        attachments@,
                        crate::html::opt_str_view(caption),
                        (i + 1) as nat,
                        attachments@.len(),
                    );
                }
                return Err(e);
            },
            Ok(a) => {
                let ghost before = attachment_views(out@);
                out.push(a);
                assert(attachment_views(out@) =~= before.push(a@));
            },
        }
        i = i + 1;
    }
    Ok(out)
}

proof fn lemma_max_attachments_stop(
    s: Seq<MaxOfficialAttachment>,
    caption: Option<Seq<char>>,
    n: nat,
    m: nat,
)
    requires
        n <= m,
        max_attachments_spec(s, caption, n) is Err,
    ensures
        max_attachments_spec(s, caption, m) == max_attachments_spec(s, caption, n),
    decreases m - n,
{
    if n < m {
        lemma_max_attachments_stop(s, caption, n, (m - 1) as nat);
    }
}

/// The chat of a MAX message: its chat, else its user, as `max:<chat>` or
/// `max:user:<user>`.
pub open spec fn max_chat_spec(r: MaxOfficialRecipient) -> Option<Seq<char>> {
    match r.chat_id {
        Some(c) => Some("max:"@ + signed_decimal(c as int)),
        None => match r.user_id {
            Some(u) => Some("max:user:"@ + signed_decimal(u as int)),
            None => None,
        },
    }
}

/// The display name of the sender of a MAX message: first name, else name, else user
/// name, else `MAX user`.
pub open spec fn max_sender_spec(s: Option<MaxOfficialUser>) -> Seq<char> {
    match s {
        Some(u) => match u.first_name {
            Some(n) => n@,
            None => match u.name {
                Some(n) => n@,
                None => match u.username {
                    Some(n) => n@,
                    None => "MAX user"@,
                },
            },
        },
        None => "MAX user"@,
    }
}

/// The text of a MAX message, empty when it has none.
pub open spec fn max_text(b: MaxOfficialMessageBody) -> Seq<char> {
    match b.text {
        Some(t) => t@,
        None => seq![],
    }
}

/// The caption a MAX message gives its attachments: its text trimmed, unless blank.
pub open spec fn max_caption(b: MaxOfficialMessageBody) -> Option<Seq<char>> {
    if trim_seq(max_text(b)).len() > 0 {
        Some(trim_seq(max_text(b)))
    } else {
        None
    }
}

/// Whether text addresses bot `bot`: after leading whitespace it starts with `@bot`.
pub open spec fn addresses_bot(text: Seq<char>, bot: Seq<char>) -> bool {
    has_prefix(trim_start_seq(text), seq!['@'] + bot)
}

/// What an official MAX update becomes, or why it is refused, checked in this order: the
/// update must be `message_created`, have a recipient, acceptable attachments and a
/// timestamp in range.
pub open spec fn official_outcome(u: MaxOfficialUpdate) -> Result<
    (Seq<char>, Seq<AttachmentView>, i64),
    ProviderErrorView,
> {
    if u.update_type@ != "message_created"@ {
        Err(ProviderErrorView::UnsupportedUpdateType(u.update_type@))
    } else {
        match max_chat_spec(u.message.recipient) {
            None => Err(ProviderErrorView::MissingRecipient),
            Some(chat) => match max_attachments_spec(
                u.message.body.attachments@,
                max_caption(u.message.body),
                u.message.body.attachments@.len(),
            ) {
                Err(e) => Err(e),
                Ok(atts) => match millis_instant(u.message.timestamp) {
                    None => Err(ProviderErrorView::InvalidMaxTimestamp),
                    Some(at) => Ok((chat, atts, at)),
                },
            },
        }
    }
}

fn prefixed_decimal(prefix: &str, n: i64) -> (r: String)
    ensures
        r@ == prefix@ + signed_decimal(n as int),
{
    let mut v = chars_of(prefix);
    push_all(&mut v, decimal_i64(n).as_slice());
    string_of(v.as_slice())
}

fn mentions(text: &[char], bot: &str) -> (r: bool)
    ensures
        r == addresses_bot(text@, bot@),
{
    let t = trim_start(text);
    let mut at = chars_of("@");
    push_all(&mut at, chars_of(bot).as_slice());
    proof {
        reveal_strlit("@");
    }
    assert(at@ =~= seq!['@'] + bot@);
    starts_with(t.as_slice(), at.as_slice())
}

/// Normalizes an official MAX update for bot `bot_identity`.
pub fn normalize_official_payload(
    provider: Provider,
    payload: &MaxOfficialUpdate,
    bot_identity: &str,
) -> (r: Result<NormalizedMessage, ProviderError>)
    ensures
        match official_outcome(*payload) {
            Err(e) => r matches Err(f) && f@ == e,
            Ok((chat, atts, at)) => r matches Ok(n) && {
                &&& n.provider == provider
                &&& n.provider_chat_id@ == chat
                &&& n.message_id@ == payload.message.body.mid@
                &&& n.timestamp == at
                &&& n.raw_text@ == max_text(payload.message.body)
                &&& attachment_views(n.attachments@) == atts
                &&& n.mentions_bot == addresses_bot(max_text(payload.message.body), bot_identity@)
                &&& n.sender_display_name@ == max_sender_spec(payload.message.sender)
            },
        },
{
    if !text_is(&payload.update_type, "message_created") {
        return Err(ProviderError::UnsupportedUpdateType {
            update_type: payload.update_type.clone(),
        });
    }
    let m = &payload.message;
    let text = match &m.body.text {
        Some(t) => chars_of(t.as_str()),
        None => Vec::new(),
    };
    let chat = match m.recipient.chat_id {
        Some(c) => prefixed_decimal("max:", c),
        None => match m.recipient.user_id {
            Some(u) => prefixed_decimal("max:user:", u),
            None => {
                return Err(ProviderError::MissingRecipient);
            },
        },
    };
    let trimmed = trim(text.as_slice());
    let caption = if trimmed.len() > 0 {
        Some(string_of(trimmed.as_slice()))
    } else {
        None
    };
    let caption_ref = match &caption {
        Some(c) => Some(c.as_str()),
        None => None,
    };
    let attachments = match max_attachments(&m.body.attachments, caption_ref) {
        Ok(a) => a,
        Err(e) => {
            return Err(e);
        },
    };
    let timestamp = match utc_millis_to_nanos(m.timestamp) {
        Some(t) => t,
        None => {
            return Err(ProviderError::InvalidMaxTimestamp);
        },
    };
    let sender = match &m.sender {
        Some(u) => match &u.first_name {
            Some(n) => n.clone(),
            None => match &u.name {
                Some(n) => n.clone(),
                None => match &u.username {
                    Some(n) => n.clone(),
                    None => "MAX user".to_string(),
                },
            },
        },
        None => "MAX user".to_string(),
    };
    Ok(NormalizedMessage {
        provider,
        provider_chat_id: chat,
        message_id: m.body.mid.clone(),
        timestamp,
        raw_text: string_of(text.as_slice()),
        attachments,
        mentions_bot: mentions(text.as_slice(), bot_identity),
        sender_display_name: sender,
    })
}

fn copy_attachments(v: &Vec<MessageAttachment>) -> (r: Vec<MessageAttachment>)
    ensures
        attachment_views(r@) == attachment_views(v@),
{
    let mut out: Vec<MessageAttachment> = Vec::new();
    let mut i: usize = 0;
    while i < v.len()
        invariant
            i <= v@.len(),
            attachment_views(out@) == attachment_views(v@).take(i as int),
        decreases v.len() - i,
    {
        let ghost before = attachment_views(out@);
        let c = v[i].copy();
        out.push(c);
        assert(attachment_views(out@) =~= before.push(c@));
        assert(attachment_views(v@).take(i + 1) =~= attachment_views(v@).take(i as int).push(
            v@[i as int]@,
        ));
        i = i + 1;
    }
    assert(attachment_views(v@).take(v@.len() as int) =~= attachment_views(v@));
    out
}

/// Normalizes an update in the older room-based MAX shape for bot `bot_identity`; refused
/// when its timestamp is not a date-time chrono reads.
pub fn normalize_legacy_payload(provider: Provider, payload: &MaxWebhook, bot_identity: &str) -> (r: Result<
    NormalizedMessage,
    ProviderError,
>)
    ensures
        match utc_text_instant(payload.timestamp@) {
            None => r matches Err(e) && e@ == ProviderErrorView::InvalidMaxTimestamp,
            Some(at) => r matches Ok(n) && {
                &&& n.provider == provider
                &&& n.provider_chat_id@ == "max:"@ + payload.room_id@
                &&& n.message_id@ == payload.message_id@
                &&& n.timestamp == at
                &&& n.raw_text@ == payload.text@
                &&& attachment_views(n.attachments@) == attachment_views(payload.attachments@)
                &&& n.mentions_bot == addresses_bot(payload.text@, bot_identity@)
                &&& n.sender_display_name@ == match payload.sender_display_name {
                    Some(s) => s@,
                    None => "MAX user"@,
                }
            },
        },
{
    let timestamp = match parse_utc_text(payload.timestamp.as_str()) {
        Some(t) => t,
        None => {
            return Err(ProviderError::InvalidMaxTimestamp);
        },
    };
    let mut chat = chars_of("max:");
    push_all(&mut chat, chars_of(payload.room_id.as_str()).as_slice());
    let text = chars_of(payload.text.as_str());
    Ok(NormalizedMessage {
        provider,
        provider_chat_id: string_of(chat.as_slice()),
        message_id: payload.message_id.clone(),
        timestamp,
        raw_text: payload.text.clone(),
        attachments: copy_attachments(&payload.attachments),
        mentions_bot: mentions(text.as_slice(), bot_identity),
        sender_display_name: match &payload.sender_display_name {
            Some(s) => s.clone(),
            None => "MAX user".to_string(),
        },
    })
}

impl MaxStubAdapter {
    /// The provider this adapter serves.
    pub fn provider(&self) -> (r: Provider)
        ensures
            r == Provider::Max,
    {
        Provider::Max
    }

    /// Normalizes a MAX update of either shape for bot `bot_identity`.
    pub fn normalize_payload(&self, payload: &MaxPayload, bot_identity: &str) -> (r: Result<
        NormalizedMessage,
        ProviderError,
    >)
        ensures
            match payload {
                MaxPayload::Official(u) => match official_outcome(*u) {
                    Err(e) => r matches Err(f) && f@ == e,
                    Ok((chat, atts, at)) => r matches Ok(n) && n.provider == Provider::Max
                        && n.provider_chat_id@ == chat && n.timestamp == at
                        && attachment_views(n.attachments@) == atts,
                },
                MaxPayload::Legacy(w) => match utc_text_instant(w.timestamp@) {
                    None => r matches Err(e) && e@ == ProviderErrorView::InvalidMaxTimestamp,
                    Some(at) => r matches Ok(n) && n.provider == Provider::Max
                        && n.provider_chat_id@ == "max:"@ + w.room_id@ && n.timestamp == at,
                },
            },
    {
        match payload {
            MaxPayload::Official(u) => normalize_official_payload(self.provider(), u, bot_identity),
            MaxPayload::Legacy(w) => normalize_legacy_payload(self.provider(), w, bot_identity),
        }
    }
}

} // verus!
