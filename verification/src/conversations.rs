//! Web conversations about a book: their titles, the registry changes a submitted
//! message makes, and what the API answers.
use vstd::prelude::*;

use crate::models::{MessageAttachment, MessageAttachmentKind};
use crate::registry::{
    ConversationRegistry, ConversationRegistryError, ConversationRegistryRecord, RecordView,
    attach_conversation_session, find_record, lemma_find_record, law_sort_orders_and_keeps_records,
    position_of, record_views, set_conversation_title, sort_by_activity, update_conversation_status,
    with_session, with_status, with_title,
};
use crate::text::{chars_eq, chars_of, decimal_u64, push_all, push_str, string_of, trim, trim_seq};
use crate::transcript::{NormalizedTranscriptMessage, TranscriptReadError, message_views};
use crate::web_books::{normalize_inferred_title, title_from_text};

verus! {

broadcast use vstd::string::group_string_axioms;

/// The title of a conversation that has none yet.
pub const DEFAULT_CONVERSATION_TITLE: &'static str = "New conversation";

/// A conversation waiting for its first message.
pub const CONVERSATION_STATUS_PENDING: &'static str = "pending";

/// A conversation whose agent is working.
pub const CONVERSATION_STATUS_IN_PROGRESS: &'static str = "in_progress";

/// A conversation whose agent has answered.
pub const CONVERSATION_STATUS_READY: &'static str = "ready";

/// A conversation whose agent run failed.
pub const CONVERSATION_STATUS_FAILED: &'static str = "failed";

/// The body of a request to create a conversation.
#[derive(Debug, Clone)]
pub struct CreateConversationRequest {
    pub title: Option<String>,
}

/// A conversation as the web API shows it; instants are RFC 3339 texts.
#[derive(Debug, Clone, PartialEq, Eq)]
pub struct WebConversationResponse {
    pub conversation_id: String,
    pub book_id: String,
    pub title: String,
    pub created_at: String,
    pub updated_at: String,
    pub last_active_at: String,
    pub status: String,
}

/// The answer to a submitted message.
#[derive(Debug, Clone, PartialEq, Eq)]
pub struct SubmitConversationMessageResponse {
    pub conversation_id: String,
    pub status: String,
}

/// The transcript of a conversation as the web API shows it.
#[derive(Debug)]
pub struct ConversationMessagesResponse {
    pub status: String,
    pub last_comment: Option<String>,
    pub messages: Vec<NormalizedTranscriptMessage>,
}

/// The title a conversation takes from its first request: the request's first six words,
/// `...` marking a cut, or the default title when it has no words.
pub open spec fn request_title_spec(prompt: Seq<char>) -> Seq<char> {
    match title_from_text(prompt) {
        Some(t) => t,
        None => DEFAULT_CONVERSATION_TITLE@,
    }
}

/// The title a conversation takes from its first request.
pub fn conversation_title_from_request(prompt: &str) -> (r: String)
    ensures
        r@ == request_title_spec(prompt@),
{
    match normalize_inferred_title(prompt) {
        Some(t) => t,
        None => DEFAULT_CONVERSATION_TITLE.to_string(),
    }
}

/// The title a new conversation is created with: the requested one trimmed, unless it is
/// missing or blank.
pub fn requested_conversation_title(title: Option<&str>) -> (r: String)
    ensures
        r@ == match title {
            Some(t) => if trim_seq(t@).len() > 0 {
                trim_seq(t@)
            } else {
                DEFAULT_CONVERSATION_TITLE@
            },
            None => DEFAULT_CONVERSATION_TITLE@,
        },
{
    match title {
        Some(t) => {
            let tt = trim(chars_of(t).as_slice());
            if tt.len() > 0 {
                string_of(tt.as_slice())
            } else {
                DEFAULT_CONVERSATION_TITLE.to_string()
            }
        },
        None => DEFAULT_CONVERSATION_TITLE.to_string(),
    }
}

/// The id of a conversation created at `micros` microseconds since the Unix epoch.
pub fn generate_conversation_id(micros: u64) -> (r: String)
    ensures
        r@ == "conversation-"@ + crate::text::decimal(micros as nat),
{
    let mut v = chars_of("conversation-");
    push_all(&mut v, decimal_u64(micros).as_slice());
    string_of(v.as_slice())
}

/// The registry record of a conversation created at `now`: pending, without a session.
pub fn new_conversation_record(
    conversation_id: String,
    book_id: &str,
    title: String,
    now: i64,
) -> (r: ConversationRegistryRecord)
    ensures
        r@ == (RecordView {
            conversation_id: conversation_id@,
            book_id: book_id@,
            title: title@,
            session_id: None,
            session_log_path: seq![],
            created_at: now,
            updated_at: now,
            last_active_at: now,
            status: CONVERSATION_STATUS_PENDING@,
        }),
{
    let r = ConversationRegistryRecord {
        conversation_id,
        book_id: book_id.to_string(),
        title,
        session_id: None,
        session_log_path: String::new(),
        created_at: now,
        updated_at: now,
        last_active_at: now,
        status: CONVERSATION_STATUS_PENDING.to_string(),
    };
    assert(r@.session_log_path =~= seq![]);
    r
}

/// The RFC 3339 text of an instant given in nanoseconds since the Unix epoch.
pub uninterp spec fn rfc3339_text(nanos: i64) -> Seq<char>;

/// Formats an instant as RFC 3339 (`DateTime::<Utc>::from_timestamp_nanos` then
/// `to_rfc3339`).
#[verifier::external_body]
pub(crate) fn format_rfc3339(nanos: i64) -> (r: String)
    ensures
        r@ == rfc3339_text(nanos),
{
    chrono::DateTime::<chrono::Utc>::from_timestamp_nanos(nanos).to_rfc3339()
}

/// A registry record as the web API shows it.
pub fn conversation_response(record: &ConversationRegistryRecord) -> (r: WebConversationResponse)
    ensures
        r.conversation_id@ == record.conversation_id@,
        r.book_id@ == record.book_id@,
        r.title@ == record.title@,
        r.created_at@ == rfc3339_text(record.created_at),
        r.updated_at@ == rfc3339_text(record.updated_at),
        r.last_active_at@ == rfc3339_text(record.last_active_at),
        r.status@ == record.status@,
{
    WebConversationResponse {
        conversation_id: record.conversation_id.clone(),
        book_id: record.book_id.clone(),
        title: record.title.clone(),
        created_at: format_rfc3339(record.created_at),
        updated_at: format_rfc3339(record.updated_at),
        last_active_at: format_rfc3339(record.last_active_at),
        status: record.status.clone(),
    }
}

/// Why a submitted message was refused.
#[derive(Debug, Clone, Copy, PartialEq, Eq, Structural)]
pub enum SubmitError {
    InvalidMessage,
    InvalidAttachment,
    InvalidPayload,
    ConversationNotFound,
    ConversationBusy,
}

impl SubmitError {
    /// The HTTP status, error code and message the API answers with.
    pub fn response_parts(&self) -> (r: (u16, &'static str, &'static str))
        ensures
            match self {
                SubmitError::InvalidMessage => r.0 == 400 && r.1@ == "invalid_message"@ && r.2@
                    == "Message text must not be empty."@,
                SubmitError::InvalidAttachment => r.0 == 400 && r.1@ == "invalid_attachment"@
                    && r.2@ == "Uploaded file must be a supported image."@,
                SubmitError::InvalidPayload => r.0 == 400 && r.1@ == "invalid_message"@ && r.2@
                    == "Message payload is invalid."@,
                SubmitError::ConversationNotFound => r.0 == 404 && r.1@
                    == "conversation_not_found"@ && r.2@ == "Conversation not found."@,
                SubmitError::ConversationBusy => r.0 == 409 && r.1@ == "conversation_busy"@ && r.2@
                    == "Conversation is already processing another request."@,
            },
    {
        match self {
            SubmitError::InvalidMessage => (400, "invalid_message", "Message text must not be empty."),
            SubmitError::InvalidAttachment => (
                400,
                "invalid_attachment",
                "Uploaded file must be a supported image.",
            ),
            SubmitError::InvalidPayload => (400, "invalid_message", "Message payload is invalid."),
            SubmitError::ConversationNotFound => (
                404,
                "conversation_not_found",
                "Conversation not found.",
            ),
            SubmitError::ConversationBusy => (
                409,
                "conversation_busy",
                "Conversation is already processing another request.",
            ),
        }
    }
}

/// The attachment an uploaded image becomes: numbered within the conversation, with the
/// name, type and size it was uploaded with.
pub fn uploaded_image_attachment(
    conversation_id: &str,
    image_index: usize,
    file_name: Option<String>,
    content_type: Option<String>,
    size: u64,
) -> (r: MessageAttachment)
    ensures
        r@.kind == MessageAttachmentKind::Image,
        r@.provider_file_id == conversation_id@ + "-"@ + crate::text::decimal(image_index as nat),
        r@.provider_unique_id is None,
        r@.original_filename == crate::models::opt_text(file_name),
        r@.mime_type == crate::models::opt_text(content_type),
        r@.width is None && r@.height is None,
        r@.file_size == Some(size),
        r@.caption is None,
{
    let mut id = chars_of(conversation_id);
    push_str(&mut id, "-");
    push_all(&mut id, decimal_u64(image_index as u64).as_slice());
    MessageAttachment {
        kind: MessageAttachmentKind::Image,
        provider_file_id: string_of(id.as_slice()),
        provider_unique_id: None,
        original_filename: file_name,
        mime_type: content_type,
        width: None,
        height: None,
        file_size: Some(size),
        caption: None,
    }
}

/// The prompt of a submitted message: its text trimmed, then on a new line the absolute
/// path of the uploaded image if there is one. Refused when the text is blank.
pub fn message_prompt(text: Option<&str>, image_path: Option<&str>) -> (r: Result<String, SubmitError>)
    ensures
        ({
            let t = match text {
                Some(x) => trim_seq(x@),
                None => seq![],
            };
            if t.len() == 0 {
                r == Err::<String, SubmitError>(SubmitError::InvalidMessage)
            } else {
                r matches Ok(p) && p@ == match image_path {
                    Some(path) => t + "\n"@ + path@,
                    None => t,
                }
            }
        }),
{
    let t = match text {
        Some(x) => trim(chars_of(x).as_slice()),
        None => Vec::new(),
    };
    if t.len() == 0 {
        return Err(SubmitError::InvalidMessage);
    }
    let mut v = t;
    match image_path {
        Some(path) => {
            push_str(&mut v, "\n");
            push_all(&mut v, chars_of(path).as_slice());
        },
        None => {},
    }
    Ok(string_of(v.as_slice()))
}

/// What a submitted message starts: the trimmed prompt, the conversation's title, and the
/// session to resume (none for a conversation's first message).
pub struct SubmissionStart {
    pub prompt: String,
    pub title: String,
    pub previous_session_id: Option<String>,
}

proof fn lemma_sorted_keeps_id(s: Seq<RecordView>, i: int, v: RecordView)
    requires
        0 <= i < s.len(),
    ensures
        find_record(sort_by_activity(s.update(i, v)), v.conversation_id) is Some,
{
    let u = s.update(i, v);
    law_sort_orders_and_keeps_records(u);
    let t = sort_by_activity(u);
    assert(u[i] == v);
    assert(u.to_multiset().count(v) > 0) by {
        broadcast use vstd::seq_lib::group_to_multiset_ensures;
        assert(u.contains(v));
    }
    assert(t.to_multiset().count(v) > 0);
    assert(t.contains(v)) by {
        broadcast use vstd::seq_lib::group_to_multiset_ensures;
    }
    let k = choose|k: int| 0 <= k < t.len() && t[k] == v;
    lemma_find_record(t, v.conversation_id);
    assert(t[k].conversation_id == v.conversation_id);
}

/// The registry after a message is accepted for conversation `id`: the title set (when it
/// changes) and the conversation marked in progress, both at `now`.
pub open spec fn submission_registry(
    before: Seq<RecordView>,
    id: Seq<char>,
    title: Seq<char>,
    now: i64,
) -> Seq<RecordView> {
    let i = find_record(before, id)->0;
    let mid = if before[i].title != title {
        sort_by_activity(before.update(i, with_title(before[i], title, now)))
    } else {
        before
    };
    let j = find_record(mid, id)->0;
    sort_by_activity(mid.update(j, with_status(mid[j], CONVERSATION_STATUS_IN_PROGRESS@, Some(now))))
}

/// Accepts a message for conversation `conversation_id`: the prompt must not be blank,
/// the conversation must exist and not be busy. A conversation without a session takes
/// its title from the prompt; it is then marked in progress.
pub fn begin_submission(
    registry: &mut ConversationRegistry,
    conversation_id: &str,
    prompt: &str,
    now: i64,
) -> (r: Result<SubmissionStart, SubmitError>)
    ensures
        ({
            let before = record_views(old(registry).conversations@);
            let after = record_views(final(registry).conversations@);
            let t = trim_seq(prompt@);
            if t.len() == 0 {
                r == Err::<SubmissionStart, SubmitError>(SubmitError::InvalidMessage) && after
                    == before
            } else {
                match find_record(before, conversation_id@) {
                    None => r == Err::<SubmissionStart, SubmitError>(
                        SubmitError::ConversationNotFound,
                    ) && after == before,
                    Some(i) => if before[i].status == CONVERSATION_STATUS_IN_PROGRESS@ {
                        r == Err::<SubmissionStart, SubmitError>(SubmitError::ConversationBusy)
                            && after == before
                    } else {
                        let title = if before[i].session_id is None {
                            request_title_spec(t)
                        } else {
                            before[i].title
                        };
                        &&& r matches Ok(s) && s.prompt@ == t && s.title@ == title
                            && crate::registry::opt_seq(s.previous_session_id)
                            == before[i].session_id
                        &&& after == submission_registry(before, conversation_id@, title, now)
                    },
                }
            }
        }),
{
    let ghost before = record_views(registry.conversations@);
    let t = trim(chars_of(prompt).as_slice());
    if t.len() == 0 {
        return Err(SubmitError::InvalidMessage);
    }
    let trimmed = string_of(t.as_slice());
    let i = match position_of(&registry.conversations, conversation_id) {
        Some(i) => i,
        None => {
            return Err(SubmitError::ConversationNotFound);
        },
    };
    assert(before[i as int] == registry.conversations@[i as int]@);
    let record = registry.conversations[i].copy();
    if chars_eq(
        chars_of(record.status.as_str()).as_slice(),
        chars_of(CONVERSATION_STATUS_IN_PROGRESS).as_slice(),
    ) {
        return Err(SubmitError::ConversationBusy);
    }
    let title = match &record.session_id {
        None => conversation_title_from_request(trimmed.as_str()),
        Some(_) => record.title.clone(),
    };
    let ghost title_v = title@;
    if !chars_eq(chars_of(title.as_str()).as_slice(), chars_of(record.title.as_str()).as_slice()) {
        let _ = set_conversation_title(registry, conversation_id, title.as_str(), now);
    }
    let ghost mid = record_views(registry.conversations@);
    proof {
        lemma_find_record(before, conversation_id@);
        if before[i as int].title != title_v {
            lemma_sorted_keeps_id(before, i as int, with_title(before[i as int], title_v, now));
        } else {
            assert(mid == before);
        }
    }
    let _ = update_conversation_status(
        registry,
        conversation_id,
        CONVERSATION_STATUS_IN_PROGRESS,
        Some(now),
    );
    Ok(SubmissionStart {
        prompt: trimmed,
        title,
        previous_session_id: record.session_id,
    })
}

/// Records how an agent run for conversation `conversation_id` ended at `now`: its
/// session and log, with the conversation ready, or the conversation failed.
pub fn finish_conversation_run(
    registry: &mut ConversationRegistry,
    conversation_id: &str,
    session: Option<(String, String)>,
    now: i64,
) -> (r: Result<ConversationRegistryRecord, ConversationRegistryError>)
    ensures
        match session {
            Some((sid, path)) => crate::registry::mutation_outcome(
                record_views(old(registry).conversations@),
                record_views(final(registry).conversations@),
                conversation_id@,
                r,
                |v: RecordView| with_session(v, sid@, path@, CONVERSATION_STATUS_READY@, Some(now)),
            ),
            None => crate::registry::mutation_outcome(
                record_views(old(registry).conversations@),
                record_views(final(registry).conversations@),
                conversation_id@,
                r,
                |v: RecordView| with_status(v, CONVERSATION_STATUS_FAILED@, Some(now)),
            ),
        },
{
    match session {
        Some((sid, path)) => attach_conversation_session(
            registry,
            conversation_id,
            sid.as_str(),
            path.as_str(),
            CONVERSATION_STATUS_READY,
            Some(now),
        ),
        None => update_conversation_status(
            registry,
            conversation_id,
            CONVERSATION_STATUS_FAILED,
            Some(now),
        ),
    }
}

/// The latest instant among the messages of a transcript, if any has one.
pub fn latest_message_activity(messages: &Vec<NormalizedTranscriptMessage>) -> (r: Option<i64>)
    ensures
        match r {
            Some(t) => (exists|i: int|
                0 <= i < messages@.len() && (#[trigger] messages@[i]).timestamp == Some(t))
                && forall|k: int|
                0 <= k < messages@.len() ==> match (#[trigger] messages@[k]).timestamp {
                    Some(u) => u <= t,
                    None => true,
                },
            None => forall|k: int| 0 <= k < messages@.len() ==> (#[trigger] messages@[k]).timestamp is None,
        },
{
    let mut best: Option<i64> = None;
    let mut i: usize = 0;
    while i < messages.len()
        invariant
            i <= messages@.len(),
            match best {
                Some(t) => (exists|q: int| 0 <= q < i && (#[trigger] messages@[q]).timestamp == Some(t))
                    && forall|k: int|
                    0 <= k < i ==> match (#[trigger] messages@[k]).timestamp {
                        Some(u) => u <= t,
                        None => true,
                    },
                None => forall|k: int| 0 <= k < i ==> (#[trigger] messages@[k]).timestamp is None,
            },
        decreases messages.len() - i,
    {
        match messages[i].timestamp {
            Some(u) => {
                match best {
                    Some(t) => {
                        if u > t {
                            best = Some(u);
                        }
                    },
                    None => {
                        best = Some(u);
                    },
                }
            },
            None => {},
        }
        i = i + 1;
    }
    best
}

/// The HTTP status, error code and message a transcript read error is answered with.
pub fn transcript_error_response(error: &TranscriptReadError) -> (r: (u16, &'static str, &'static str))
    ensures
        match error {
            TranscriptReadError::ConversationNotFound { .. } => r.0 == 404 && r.1@
                == "conversation_not_found"@ && r.2@ == "Conversation not found."@,
            TranscriptReadError::InvalidSessionLogPath => r.0 == 500 && r.1@
                == "session_log_path_invalid"@ && r.2@ == "Conversation transcript is unavailable."@,
            TranscriptReadError::SessionLogMissing => r.0 == 500 && r.1@ == "session_log_missing"@
                && r.2@ == "Conversation transcript is not available yet."@,
            _ => r.0 == 500 && r.1@ == "session_log_read_failed"@ && r.2@
                == "Failed to load conversation transcript."@,
        },
{
    match error {
        TranscriptReadError::ConversationNotFound { .. } => (
            404,
            "conversation_not_found",
            "Conversation not found.",
        ),
        TranscriptReadError::InvalidSessionLogPath => (
            500,
            "session_log_path_invalid",
            "Conversation transcript is unavailable.",
        ),
        TranscriptReadError::SessionLogMissing => (
            500,
            "session_log_missing",
            "Conversation transcript is not available yet.",
        ),
        _ => (500, "session_log_read_failed", "Failed to load conversation transcript."),
    }
}

} // verus!
