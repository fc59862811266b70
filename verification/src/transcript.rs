//! Agent session logs read back as a conversation transcript.
//!
//! A session log is JSON lines. Each line has been decoded into a `TranscriptLogRecord`
//! (or found malformed) before it reaches this module; here the records become the
//! messages an author sees: bookkeeping is dropped, echoes are merged, commentary is set
//! apart and messages are numbered.
use vstd::prelude::*;

use crate::paths::{
    piece_views, split_char, split_on, components, component_views, is_absolute, join, join_path,
    normalize_absolute_path, normalize_absolute_path_spec, path_components, path_extension,
    extension_of_path, path_starts_with, is_component_prefix, Component, PathComponent,
};
use crate::registry::{ConversationRegistry, find_record, position_of, record_views};
use crate::html::opt_str_view;
use crate::text::{
    ascii_lower_seq, chars_eq, chars_of, decimal, decimal_u64, join_seqs, push_all, push_str,
    slice_range, string_of, to_ascii_lowercase, trim, trim_seq, views,
};
use crate::web_books::{is_internal_text_spec, is_internal_transcript_text, title_from_text, normalize_inferred_title};

verus! {

broadcast use vstd::string::group_string_axioms;

/// Where a transcript message was read from.
#[derive(Debug, Clone, Copy, PartialEq, Eq, Structural)]
pub enum TranscriptMessageSource {
    EventMessage,
    ResponseItem,
    Unknown,
}

/// A message of a conversation transcript.
#[derive(Debug)]
pub struct NormalizedTranscriptMessage {
    pub message_id: String,
    pub role: String,
    pub text: String,
    pub timestamp: Option<i64>,
    pub source: TranscriptMessageSource,
}

/// The mathematical form of a transcript message.
pub struct MessageView {
    pub message_id: Seq<char>,
    pub role: Seq<char>,
    pub text: Seq<char>,
    pub timestamp: Option<i64>,
    pub source: TranscriptMessageSource,
}

impl View for NormalizedTranscriptMessage {
    type V = MessageView;

    open spec fn view(&self) -> MessageView {
        MessageView {
            message_id: self.message_id@,
            role: self.role@,
            text: self.text@,
            timestamp: self.timestamp,
            source: self.source,
        }
    }
}

/// The views of a vector of messages.
pub open spec fn message_views(v: Seq<NormalizedTranscriptMessage>) -> Seq<MessageView> {
    v.map_values(|m: NormalizedTranscriptMessage| m@)
}

impl NormalizedTranscriptMessage {
    /// A copy of the message.
    pub fn copy(&self) -> (r: NormalizedTranscriptMessage)
        ensures
            r@ == self@,
    {
        NormalizedTranscriptMessage {
            message_id: self.message_id.clone(),
            role: self.role.clone(),
            text: self.text.clone(),
            timestamp: self.timestamp,
            source: self.source,
        }
    }
}

/// The `content` field of a session-log payload.
#[derive(Debug, Clone)]
pub enum PayloadContent {
    /// No `content` field.
    Missing,
    /// A string.
    Text(String),
    /// An array: for each item, its `text` field when that is a string.
    Items(Vec<Option<String>>),
    /// Any other JSON value.
    Other,
}

/// The fields of a session-log payload that transcripts read; each string field is present
/// only when the JSON field is a string.
#[derive(Debug, Clone)]
pub struct TranscriptPayload {
    pub payload_type: Option<String>,
    pub message: Option<String>,
    pub role: Option<String>,
    pub phase: Option<String>,
    pub thread_name: Option<String>,
    pub content: PayloadContent,
}

/// One decoded line of a session log.
#[derive(Debug, Clone)]
pub struct TranscriptLogRecord {
    /// The `timestamp` field, when a string.
    pub timestamp: Option<String>,
    /// The `type` field, when a string.
    pub record_type: Option<String>,
    /// The `payload` field, when present.
    pub payload: Option<TranscriptPayload>,
}

/// The view of an optional string.
pub open spec fn opt_seq(o: Option<String>) -> Option<Seq<char>> {
    match o {
        Some(s) => Some(s@),
        None => None,
    }
}

/// The instant an RFC 3339 timestamp names, in nanoseconds since the Unix epoch (UTC), as
/// `chrono::DateTime::parse_from_rfc3339` reads it; `None` when it is not one or does not fit.
pub uninterp spec fn rfc3339_instant(s: Seq<char>) -> Option<i64>;

/// `chrono::DateTime::parse_from_rfc3339`, converted to UTC nanoseconds. Its result is the
/// name `rfc3339_instant` applied to the text; nothing more is claimed of it.
#[verifier::external_body]
pub(crate) fn parse_rfc3339_utc(value: &str) -> (r: Option<i64>)
    ensures
        r == rfc3339_instant(value@),
{
    chrono::DateTime::parse_from_rfc3339(value).ok().and_then(|t| t.timestamp_nanos_opt())
}

/// `n` in decimal, zero-padded to six digits (`format!("{:06}", n)`).
pub open spec fn pad6(n: nat) -> Seq<char> {
    let d = decimal(n);
    if d.len() >= 6 {
        d
    } else {
        Seq::new((6 - d.len()) as nat, |i: int| '0') + d
    }
}

/// The id of the `n`-th message: `msg-` and `n` padded to six digits.
pub open spec fn message_id_spec(n: nat) -> Seq<char> {
    "msg-"@ + pad6(n)
}

/// The id of the `n`-th message.
pub fn message_id(n: u64) -> (r: String)
    ensures
        r@ == message_id_spec(n as nat),
{
    let d = decimal_u64(n);
    let mut out: Vec<char> = Vec::new();
    push_str(&mut out, "msg-");
    let ghost head = out@;
    if d.len() < 6 {
        let pad = 6 - d.len();
        let mut k: usize = 0;
        while k < pad
            invariant
                k <= pad,
                pad == 6 - d.len(),
                out@ == head + Seq::new(k as nat, |i: int| '0'),
            decreases pad - k,
        {
            out.push('0');
            k = k + 1;
            assert(out@ =~= head + Seq::new(k as nat, |i: int| '0'));
        }
    }
    push_all(&mut out, d.as_slice());
    assert(out@ =~= message_id_spec(n as nat));
    string_of(out.as_slice())
}

/// Whether a payload marks an assistant message as commentary: its `phase`, trimmed, is
/// `commentary` in any ASCII case.
pub open spec fn is_commentary_phase_spec(payload: TranscriptPayload) -> bool {
    match opt_seq(payload.phase) {
        Some(p) => ascii_lower_seq(trim_seq(p)) == "commentary"@,
        None => false,
    }
}

/// Whether a payload marks an assistant message as commentary.
pub fn is_commentary_phase(payload: &TranscriptPayload) -> (r: bool)
    ensures
        r == is_commentary_phase_spec(*payload),
{
    match &payload.phase {
        Some(p) => {
            let v = chars_of(p.as_str());
            let t = trim(v.as_slice());
            let l = to_ascii_lowercase(t.as_slice());
            let c = chars_of("commentary");
            chars_eq(l.as_slice(), c.as_slice())
        },
        None => false,
    }
}

/// The role shown for a message: assistant messages in the commentary phase are commentary.
pub open spec fn shown_role(role: Seq<char>, payload: TranscriptPayload) -> Seq<char> {
    if role == "assistant"@ && is_commentary_phase_spec(payload) {
        "commentary"@
    } else {
        role
    }
}

/// A message read from an `event_msg` record: user and agent messages only, without the
/// bookkeeping the web app sends as a user.
pub open spec fn event_message_spec(payload: TranscriptPayload, timestamp: Option<i64>, n: nat) -> Option<
    MessageView,
> {
    match (opt_seq(payload.payload_type), opt_seq(payload.message)) {
        (Some(t), Some(text)) => {
            if t == "user_message"@ || t == "agent_message"@ {
                let role = if t == "user_message"@ {
                    "user"@
                } else {
                    "assistant"@
                };
                if role == "user"@ && is_internal_text_spec(text) {
                    None
                } else {
                    Some(
                        MessageView {
                            message_id: message_id_spec(n),
                            role: shown_role(role, payload),
                            text: text,
                            timestamp: timestamp,
                            source: TranscriptMessageSource::EventMessage,
                        },
                    )
                }
            } else {
                None
            }
        },
        _ => None,
    }
}

/// The trimmed item texts of an array `content`, skipping empty and bookkeeping ones.
pub open spec fn item_chunks(items: Seq<Option<String>>) -> Seq<Seq<char>>
    decreases items.len(),
{
    if items.len() == 0 {
        seq![]
    } else {
        let prev = item_chunks(items.drop_last());
        match opt_seq(items.last()) {
            Some(text) => {
                let t = trim_seq(text);
                if t.len() > 0 && !is_internal_text_spec(t) {
                    prev.push(t)
                } else {
                    prev
                }
            },
            None => prev,
        }
    }
}

/// The text of a `response_item` message: its trimmed `message`, else its trimmed string
/// `content`, else the chunks of its array `content` joined by newlines.
pub open spec fn response_text_spec(payload: TranscriptPayload) -> Option<Seq<char>> {
    let from_message = match opt_seq(payload.message) {
        Some(m) => if trim_seq(m).len() > 0 {
            Some(trim_seq(m))
        } else {
            None
        },
        None => None,
    };
    match from_message {
        Some(t) => Some(t),
        None => match payload.content {
            PayloadContent::Text(v) => if trim_seq(v@).len() > 0 {
                Some(trim_seq(v@))
            } else {
                None
            },
            PayloadContent::Items(items) => {
                let chunks = item_chunks(items@);
                if chunks.len() > 0 {
                    Some(join_seqs(chunks, seq!['\n']))
                } else {
                    None
                }
            },
            _ => None,
        },
    }
}

/// A message read from a `response_item` record: `message` items from users and the
/// assistant that carry text.
pub open spec fn response_message_spec(payload: TranscriptPayload, timestamp: Option<i64>, n: nat) -> Option<
    MessageView,
> {
    match (opt_seq(payload.payload_type), opt_seq(payload.role)) {
        (Some(t), Some(role)) => {
            if t == "message"@ && (role == "user"@ || role == "assistant"@) {
                match response_text_spec(payload) {
                    Some(text) => Some(
                        MessageView {
                            message_id: message_id_spec(n),
                            role: shown_role(role, payload),
                            text: text,
                            timestamp: timestamp,
                            source: TranscriptMessageSource::ResponseItem,
                        },
                    ),
                    None => None,
                }
            } else {
                None
            }
        },
        _ => None,
    }
}

/// The message a log record holds, numbered `n`, if any.
pub open spec fn record_message_spec(record: TranscriptLogRecord, n: nat) -> Option<MessageView> {
    let timestamp = match opt_seq(record.timestamp) {
        Some(t) => rfc3339_instant(t),
        None => None,
    };
    match (opt_seq(record.record_type), record.payload) {
        (Some(t), Some(payload)) => {
            if t == "event_msg"@ || t == "event message"@ {
                event_message_spec(payload, timestamp, n)
            } else if t == "response_item"@ || t == "response item"@ {
                response_message_spec(payload, timestamp, n)
            } else {
                None
            }
        },
        _ => None,
    }
}

fn eq_lit(v: &str, lit: &str) -> (r: bool)
    ensures
        r == (v@ == lit@),
{
    let a = chars_of(v);
    let b = chars_of(lit);
    chars_eq(a.as_slice(), b.as_slice())
}

fn shown_role_of(role: &str, payload: &TranscriptPayload) -> (r: String)
    ensures
        r@ == shown_role(role@, *payload),
{
    if eq_lit(role, "assistant") && is_commentary_phase(payload) {
        "commentary".to_string()
    } else {
        role.to_string()
    }
}

fn normalize_event_message(payload: &TranscriptPayload, timestamp: Option<i64>, n: u64) -> (r: Option<
    NormalizedTranscriptMessage,
>)
    ensures
        opt_message_view(r) == event_message_spec(*payload, timestamp, n as nat),
{
    let t = match &payload.payload_type {
        Some(t) => t,
        None => {
            return None;
        },
    };
    let text = match &payload.message {
        Some(m) => m,
        None => {
            return None;
        },
    };
    let is_user = eq_lit(t.as_str(), "user_message");
    if !is_user && !eq_lit(t.as_str(), "agent_message") {
        return None;
    }
    let role = if is_user {
        "user"
    } else {
        "assistant"
    };
    let internal = if is_user {
        is_internal_transcript_text(text.as_str())
    } else {
        false
    };
    assert(is_user ==> internal == is_internal_text_spec(text@));
    if internal {
        proof {
            reveal_strlit("user");
            reveal_strlit("assistant");
        }
        return None;
    }
    proof {
        reveal_strlit("user");
        reveal_strlit("assistant");
    }
    assert(role@ == (if t@ == "user_message"@ {
        "user"@
    } else {
        "assistant"@
    }));
    let shown = shown_role_of(role, payload);
    let m = NormalizedTranscriptMessage {
        message_id: message_id(n),
        role: shown,
        text: text.clone(),
        timestamp: timestamp,
        source: TranscriptMessageSource::EventMessage,
    };
    assert(opt_seq(payload.payload_type) == Some(t@));
    assert(opt_seq(payload.message) == Some(text@));
    assert("assistant"@ != "user"@) by {
        reveal_strlit("user");
        reveal_strlit("assistant");
        assert("assistant"@.len() != "user"@.len());
    }
    assert(!(role@ == "user"@ && is_internal_text_spec(text@)));
    assert(m@.role == shown_role(role@, *payload));
    assert(m@.text == text@);
    Some(m)
}

/// The view of an optional message.
pub open spec fn opt_message_view(o: Option<NormalizedTranscriptMessage>) -> Option<MessageView> {
    match o {
        Some(m) => Some(m@),
        None => None,
    }
}

fn item_chunks_of(items: &Vec<Option<String>>) -> (r: Vec<Vec<char>>)
    ensures
        views(r@) == item_chunks(items@),
{
    let mut out: Vec<Vec<char>> = Vec::new();
    let mut i: usize = 0;
    while i < items.len()
        invariant
            i <= items.len(),
            views(out@) == item_chunks(items@.take(i as int)),
        decreases items.len() - i,
    {
        assert(items@.take(i + 1).drop_last() =~= items@.take(i as int));
        assert(items@.take(i + 1).last() == items@[i as int]);
        match &items[i] {
            Some(text) => {
                let v = chars_of(text.as_str());
                let t = trim(v.as_slice());
                let ts = string_of(t.as_slice());
                if t.len() > 0 && !is_internal_transcript_text(ts.as_str()) {
                    let ghost before = views(out@);
                    let ghost tv = t@;
                    out.push(t);
                    assert(views(out@) =~= before.push(tv));
                }
            },
            None => {},
        }
        i = i + 1;
    }
    assert(items@.take(items.len() as int) =~= items@);
    out
}

fn response_text(payload: &TranscriptPayload) -> (r: Option<String>)
    ensures
        opt_seq(r) == response_text_spec(*payload),
{
    match &payload.message {
        Some(m) => {
            let v = chars_of(m.as_str());
            let t = trim(v.as_slice());
            if t.len() > 0 {
                return Some(string_of(t.as_slice()));
            }
        },
        None => {},
    }
    match &payload.content {
        PayloadContent::Text(v) => {
            let c = chars_of(v.as_str());
            let t = trim(c.as_slice());
            if t.len() > 0 {
                Some(string_of(t.as_slice()))
            } else {
                None
            }
        },
        PayloadContent::Items(items) => {
            let chunks = item_chunks_of(items);
            assert(views(chunks@).len() == chunks@.len());
            if chunks.len() > 0 {
                let j = crate::text::join_first(&chunks, chunks.len(), &['\n']);
                assert(views(chunks@).take(chunks.len() as int) =~= views(chunks@));
                assert((&['\n'])@ == seq!['\n']);
                Some(string_of(j.as_slice()))
            } else {
                None
            }
        },
        _ => None,
    }
}

fn normalize_response_item(payload: &TranscriptPayload, timestamp: Option<i64>, n: u64) -> (r: Option<
    NormalizedTranscriptMessage,
>)
    ensures
        opt_message_view(r) == response_message_spec(*payload, timestamp, n as nat),
{
    let t = match &payload.payload_type {
        Some(t) => t,
        None => {
            return None;
        },
    };
    let role = match &payload.role {
        Some(r) => r,
        None => {
            return None;
        },
    };
    if !eq_lit(t.as_str(), "message") {
        return None;
    }
    if !eq_lit(role.as_str(), "user") && !eq_lit(role.as_str(), "assistant") {
        return None;
    }
    let text = match response_text(payload) {
        Some(text) => text,
        None => {
            return None;
        },
    };
    Some(
        NormalizedTranscriptMessage {
            message_id: message_id(n),
            role: shown_role_of(role.as_str(), payload),
            text: text,
            timestamp: timestamp,
            source: TranscriptMessageSource::ResponseItem,
        },
    )
}

/// The message a log record holds, numbered `n`, if any.
pub fn normalize_transcript_message(record: &TranscriptLogRecord, n: u64) -> (r: Option<
    NormalizedTranscriptMessage,
>)
    ensures
        opt_message_view(r) == record_message_spec(*record, n as nat),
{
    let timestamp = match &record.timestamp {
        Some(t) => parse_rfc3339_utc(t.as_str()),
        None => None,
    };
    let t = match &record.record_type {
        Some(t) => t,
        None => {
            return None;
        },
    };
    let payload = match &record.payload {
        Some(p) => p,
        None => {
            return None;
        },
    };
    if eq_lit(t.as_str(), "event_msg") || eq_lit(t.as_str(), "event message") {
        normalize_event_message(payload, timestamp, n)
    } else if eq_lit(t.as_str(), "response_item") || eq_lit(t.as_str(), "response item") {
        normalize_response_item(payload, timestamp, n)
    } else {
        None
    }
}


/// Whether `cur` repeats `prev`: same role and text, and either the same instant or one read
/// from an event record and the other from a response record.
pub open spec fn is_duplicate_spec(prev: MessageView, cur: MessageView) -> bool {
    &&& prev.role == cur.role
    &&& prev.text == cur.text
    &&& (prev.timestamp == cur.timestamp || (prev.source == TranscriptMessageSource::EventMessage
        && cur.source == TranscriptMessageSource::ResponseItem) || (prev.source
        == TranscriptMessageSource::ResponseItem && cur.source
        == TranscriptMessageSource::EventMessage))
}

/// `s` without messages that repeat the message kept just before them.
pub open spec fn dedupe_spec(s: Seq<MessageView>) -> Seq<MessageView>
    decreases s.len(),
{
    if s.len() == 0 {
        seq![]
    } else {
        let d = dedupe_spec(s.drop_last());
        if d.len() > 0 && is_duplicate_spec(d.last(), s.last()) {
            d
        } else {
            d.push(s.last())
        }
    }
}

/// Whether a message is bookkeeping: a user message of internal text, or the assistant's
/// reply to the bootstrap prompt.
pub open spec fn is_internal_message_spec(m: MessageView) -> bool {
    if m.role == "user"@ {
        is_internal_text_spec(m.text)
    } else if m.role == "assistant"@ {
        m.text == crate::web_books::WEB_MESSENGER_BOOTSTRAP_REPLY@
    } else {
        false
    }
}

/// `s` without bookkeeping messages, the rest numbered again from one.
pub open spec fn filter_internal_spec(s: Seq<MessageView>) -> Seq<MessageView>
    decreases s.len(),
{
    if s.len() == 0 {
        seq![]
    } else {
        let f = filter_internal_spec(s.drop_last());
        if is_internal_message_spec(s.last()) {
            f
        } else {
            f.push(MessageView { message_id: message_id_spec(f.len() + 1), ..s.last() })
        }
    }
}

/// After merging echoes, no message repeats the one before it, and every message kept was
/// read.
pub proof fn law_dedupe_leaves_no_adjacent_repeat(s: Seq<MessageView>)
    ensures
        forall|i: int|
            0 <= i < dedupe_spec(s).len() - 1 ==> !is_duplicate_spec(
                #[trigger] dedupe_spec(s)[i],
                dedupe_spec(s)[i + 1],
            ),
        forall|m: MessageView| #[trigger] dedupe_spec(s).contains(m) ==> s.contains(m),
    decreases s.len(),
{
    if s.len() > 0 {
        let t = s.drop_last();
        law_dedupe_leaves_no_adjacent_repeat(t);
        let d = dedupe_spec(t);
        assert forall|m: MessageView| #[trigger] dedupe_spec(s).contains(m) implies s.contains(m) by {
            let k = choose|k: int| 0 <= k < dedupe_spec(s).len() && dedupe_spec(s)[k] == m;
            if k < d.len() {
                assert(d[k] == m);
                assert(d.contains(m));
                let j = choose|j: int| 0 <= j < t.len() && t[j] == m;
                assert(s[j] == m);
            } else {
                assert(m == s.last());
                assert(s[s.len() - 1] == m);
            }
        }
        assert forall|i: int| 0 <= i < dedupe_spec(s).len() - 1 implies !is_duplicate_spec(
            #[trigger] dedupe_spec(s)[i],
            dedupe_spec(s)[i + 1],
        ) by {
            if i + 1 < d.len() {
                assert(dedupe_spec(s)[i] == d[i]);
                assert(dedupe_spec(s)[i + 1] == d[i + 1]);
            } else {
                assert(dedupe_spec(s)[i] == d.last());
            }
        }
    }
}

/// After bookkeeping is dropped, no message is bookkeeping, and the messages are numbered
/// `msg-000001`, `msg-000002`, … in order.
pub proof fn law_filtered_messages_are_numbered(s: Seq<MessageView>)
    ensures
        forall|i: int|
            0 <= i < filter_internal_spec(s).len() ==> (#[trigger] filter_internal_spec(s)[i]).message_id
                == message_id_spec((i + 1) as nat) && !is_internal_message_spec(
                filter_internal_spec(s)[i],
            ),
    decreases s.len(),
{
    if s.len() > 0 {
        law_filtered_messages_are_numbered(s.drop_last());
        let f = filter_internal_spec(s.drop_last());
        assert forall|i: int| 0 <= i < filter_internal_spec(s).len() implies (
        #[trigger] filter_internal_spec(s)[i]).message_id == message_id_spec((i + 1) as nat)
            && !is_internal_message_spec(filter_internal_spec(s)[i]) by {
            if i < f.len() {
                assert(filter_internal_spec(s)[i] == f[i]);
            }
        }
    }
}

/// Dropping bookkeeping keeps each remaining message's role and text.
proof fn lemma_filter_keeps_roles(s: Seq<MessageView>, role: Seq<char>)
    requires
        forall|i: int| 0 <= i < s.len() ==> (#[trigger] s[i]).role != role,
    ensures
        forall|i: int|
            0 <= i < filter_internal_spec(s).len() ==> (#[trigger] filter_internal_spec(s)[i]).role
                != role,
    decreases s.len(),
{
    if s.len() > 0 {
        let t = s.drop_last();
        assert forall|i: int| 0 <= i < t.len() implies (#[trigger] t[i]).role != role by {
            assert(t[i] == s[i]);
        }
        lemma_filter_keeps_roles(t, role);
        assert(s.last() == s[s.len() - 1]);
    }
}

/// The messages a log is read into are never commentary.
proof fn lemma_scan_has_no_commentary(
    lines: Seq<Seq<char>>,
    parsed: Seq<Option<TranscriptLogRecord>>,
    ends: bool,
    k: nat,
)
    ensures
        match scan_lines(lines, parsed, ends, k) {
            ScanState::Reading(msgs, _) => forall|i: int|
                0 <= i < msgs.len() ==> (#[trigger] msgs[i]).role != "commentary"@,
            ScanState::Stopped(msgs, _) => forall|i: int|
                0 <= i < msgs.len() ==> (#[trigger] msgs[i]).role != "commentary"@,
            ScanState::Failed(_) => true,
        },
    decreases k,
{
    if k > 0 {
        lemma_scan_has_no_commentary(lines, parsed, ends, (k - 1) as nat);
    }
}

/// A transcript shows no commentary: whatever a session log holds, no message of the
/// snapshot read from it has the role `commentary` (commentary only becomes the last
/// comment).
pub proof fn law_snapshot_has_no_commentary(
    lines: Seq<Seq<char>>,
    parsed: Seq<Option<TranscriptLogRecord>>,
    ends: bool,
    k: nat,
)
    ensures
        match scan_lines(lines, parsed, ends, k) {
            ScanState::Reading(msgs, _) => forall|i: int|
                0 <= i < snapshot_messages(msgs).len() ==> (#[trigger] snapshot_messages(
                    msgs,
                )[i]).role != "commentary"@,
            ScanState::Stopped(msgs, _) => forall|i: int|
                0 <= i < snapshot_messages(msgs).len() ==> (#[trigger] snapshot_messages(
                    msgs,
                )[i]).role != "commentary"@,
            ScanState::Failed(_) => true,
        },
{
    lemma_scan_has_no_commentary(lines, parsed, ends, k);
    match scan_lines(lines, parsed, ends, k) {
        ScanState::Reading(msgs, _) => lemma_snapshot_roles(msgs),
        ScanState::Stopped(msgs, _) => lemma_snapshot_roles(msgs),
        ScanState::Failed(_) => {},
    }
}

proof fn lemma_snapshot_roles(msgs: Seq<MessageView>)
    requires
        forall|i: int| 0 <= i < msgs.len() ==> (#[trigger] msgs[i]).role != "commentary"@,
    ensures
        forall|i: int|
            0 <= i < snapshot_messages(msgs).len() ==> (#[trigger] snapshot_messages(msgs)[i]).role
                != "commentary"@,
{
    law_dedupe_leaves_no_adjacent_repeat(msgs);
    let d = dedupe_spec(msgs);
    assert forall|i: int| 0 <= i < d.len() implies (#[trigger] d[i]).role != "commentary"@ by {
        assert(d.contains(d[i]));
        assert(msgs.contains(d[i]));
    }
    lemma_filter_keeps_roles(d, "commentary"@);
}

/// Whether a new comment replaces the last one kept: unless both have instants and the new
/// one is earlier.
pub open spec fn should_replace_spec(prev: Option<MessageView>, cur: MessageView) -> bool {
    match prev {
        None => true,
        Some(p) => match p.timestamp {
            None => true,
            Some(pt) => match cur.timestamp {
                Some(ct) => ct >= pt,
                None => true,
            },
        },
    }
}

/// The position of the first user message, if any.
pub open spec fn first_user(s: Seq<MessageView>) -> Option<int>
    decreases s.len(),
{
    if s.len() == 0 {
        None
    } else {
        match first_user(s.drop_last()) {
            Some(i) => Some(i),
            None => if s.last().role == "user"@ {
                Some(s.len() - 1)
            } else {
                None
            },
        }
    }
}

/// The title a session gets from its first user message.
pub open spec fn session_title_spec(s: Seq<MessageView>) -> Option<Seq<char>> {
    match first_user(s) {
        Some(i) => title_from_text(s[i].text),
        None => None,
    }
}

fn is_duplicate(prev: &NormalizedTranscriptMessage, cur: &NormalizedTranscriptMessage) -> (r: bool)
    ensures
        r == is_duplicate_spec(prev@, cur@),
{
    let a = chars_of(prev.role.as_str());
    let b = chars_of(cur.role.as_str());
    let c = chars_of(prev.text.as_str());
    let d = chars_of(cur.text.as_str());
    if !chars_eq(a.as_slice(), b.as_slice()) || !chars_eq(c.as_slice(), d.as_slice()) {
        return false;
    }
    if prev.timestamp == cur.timestamp {
        return true;
    }
    match (prev.source, cur.source) {
        (TranscriptMessageSource::EventMessage, TranscriptMessageSource::ResponseItem) => true,
        (TranscriptMessageSource::ResponseItem, TranscriptMessageSource::EventMessage) => true,
        _ => false,
    }
}

/// Drops messages that repeat the message kept just before them.
pub fn deduplicate_transcript_messages(messages: Vec<NormalizedTranscriptMessage>) -> (r: Vec<
    NormalizedTranscriptMessage,
>)
    ensures
        message_views(r@) == dedupe_spec(message_views(messages@)),
{
    let ghost src = message_views(messages@);
    let mut out: Vec<NormalizedTranscriptMessage> = Vec::new();
    let mut rest = messages;
    let ghost n = src.len();
    assert(message_views(rest@) =~= src.skip(0));
    while rest.len() > 0
        invariant
            n == src.len(),
            rest@.len() <= n,
            message_views(rest@) == src.skip((n - rest@.len()) as int),
            message_views(out@) == dedupe_spec(src.take((n - rest@.len()) as int)),
        decreases rest.len(),
    {
        let ghost done = (n - rest@.len()) as int;
        let ghost old_rest = message_views(rest@);
        let ghost old_vec = rest@;
        let m = rest.remove(0);
        proof {
            assert(rest@ == old_vec.remove(0));
            assert(old_rest[0] == m@);
            assert(message_views(rest@) =~= old_rest.skip(1));
            assert(src.skip(done)[0] == src[done]);
            assert(message_views(rest@) =~= src.skip(done + 1));
            assert(src.take(done + 1).drop_last() =~= src.take(done));
            assert(src.take(done + 1).last() == src[done]);
        }
        let ghost before = message_views(out@);
        let dup = if out.len() > 0 {
            assert(before.last() == out@[out.len() - 1]@);
            is_duplicate(&out[out.len() - 1], &m)
        } else {
            false
        };
        if !dup {
            let ghost mv = m@;
            out.push(m);
            assert(message_views(out@) =~= before.push(mv));
        }
    }
    assert(src.take(n as int) =~= src);
    out
}

fn is_internal_message(m: &NormalizedTranscriptMessage) -> (r: bool)
    ensures
        r == is_internal_message_spec(m@),
{
    if eq_lit(m.role.as_str(), "user") {
        is_internal_transcript_text(m.text.as_str())
    } else if eq_lit(m.role.as_str(), "assistant") {
        eq_lit(m.text.as_str(), crate::web_books::WEB_MESSENGER_BOOTSTRAP_REPLY)
    } else {
        false
    }
}

/// Drops bookkeeping messages and numbers the rest again from one.
pub fn filter_internal_transcript_messages(messages: Vec<NormalizedTranscriptMessage>) -> (r: Vec<
    NormalizedTranscriptMessage,
>)
    ensures
        message_views(r@) == filter_internal_spec(message_views(messages@)),
{
    let ghost src = message_views(messages@);
    let total = messages.len();
    assert(src.len() == total);
    let mut out: Vec<NormalizedTranscriptMessage> = Vec::new();
    let mut rest = messages;
    let ghost n = src.len();
    assert(message_views(rest@) =~= src.skip(0));
    while rest.len() > 0
        invariant
            n == src.len(),
            rest@.len() <= n,
            message_views(rest@) == src.skip((n - rest@.len()) as int),
            message_views(out@) == filter_internal_spec(src.take((n - rest@.len()) as int)),
            out@.len() <= n - rest@.len(),
            n <= usize::MAX,
        decreases rest.len(),
    {
        let ghost done = (n - rest@.len()) as int;
        let ghost old_rest = message_views(rest@);
        let ghost old_vec = rest@;
        let m = rest.remove(0);
        proof {
            assert(rest@ == old_vec.remove(0));
            assert(old_rest[0] == m@);
            assert(message_views(rest@) =~= old_rest.skip(1));
            assert(src.skip(done)[0] == src[done]);
            assert(message_views(rest@) =~= src.skip(done + 1));
            assert(src.take(done + 1).drop_last() =~= src.take(done));
            assert(src.take(done + 1).last() == src[done]);
        }
        let ghost before = message_views(out@);
        if !is_internal_message(&m) {
            assert(out@.len() < n);
            let id = message_id((out.len() + 1) as u64);
            let renumbered = NormalizedTranscriptMessage {
                message_id: id,
                role: m.role,
                text: m.text,
                timestamp: m.timestamp,
                source: m.source,
            };
            let ghost rv = renumbered@;
            out.push(renumbered);
            assert(message_views(out@) =~= before.push(rv));
        }
    }
    assert(src.take(n as int) =~= src);
    out
}

/// The lines of a text (`str::lines`): cut at each `\n`, a trailing `\r` removed from each
/// line, and no empty last line after a final `\n`.
pub open spec fn lines_spec(content: Seq<char>) -> Seq<Seq<char>> {
    let pieces = split_on(content, '\n');
    let kept = if pieces.last().len() == 0 {
        pieces.drop_last()
    } else {
        pieces
    };
    kept.map_values(
        |l: Seq<char>|
            if l.len() > 0 && l.last() == '\r' {
                l.drop_last()
            } else {
                l
            },
    )
}

/// The lines of a text, as `str::lines` cuts them.
pub fn transcript_lines(content: &str) -> (r: Vec<String>)
    ensures
        r@.map_values(|s: String| s@) == lines_spec(content@),
{
    let c = chars_of(content);
    let pieces = split_char(c.as_slice(), '\n');
    let ghost pv = piece_views(pieces@);
    proof {
        crate::paths::lemma_split_nonempty(content@, '\n');
    }
    assert(pv.len() == pieces@.len());
    let last = pieces.len() - 1;
    assert(pv.last() == pieces@[last as int]@);
    let keep = if pieces[last].len() == 0 {
        last
    } else {
        pieces.len()
    };
    let ghost kept = pv.take(keep as int);
    let mut out: Vec<String> = Vec::new();
    let mut i: usize = 0;
    while i < keep
        invariant
            i <= keep <= pieces.len(),
            pv == piece_views(pieces@),
            pv.len() == pieces@.len(),
            kept == pv.take(keep as int),
            out@.map_values(|s: String| s@) == kept.take(i as int).map_values(
                |l: Seq<char>|
                    if l.len() > 0 && l.last() == '\r' {
                        l.drop_last()
                    } else {
                        l
                    },
            ),
        decreases keep - i,
    {
        let p = &pieces[i];
        assert(pv[i as int] == p@);
        let line = if p.len() > 0 && p[p.len() - 1] == '\r' {
            let t = slice_range(p.as_slice(), 0, p.len() - 1);
            assert(t@ =~= p@.drop_last());
            string_of(t.as_slice())
        } else {
            string_of(p.as_slice())
        };
        let ghost before = out@.map_values(|s: String| s@);
        let ghost lv = line@;
        out.push(line);
        i = i + 1;
        assert(out@.map_values(|s: String| s@) =~= before.push(lv));
        assert(kept.take(i as int) =~= kept.take(i - 1).push(kept[i - 1]));
        assert(out@.map_values(|s: String| s@) =~= kept.take(i as int).map_values(
            |l: Seq<char>|
                if l.len() > 0 && l.last() == '\r' {
                    l.drop_last()
                } else {
                    l
                },
        ));
    }
    assert(kept.take(keep as int) =~= kept);
    proof {
        if keep == last {
            assert(pv.take(last as int) =~= pv.drop_last());
        } else {
            assert(pv.take(keep as int) =~= pv);
        }
    }
    out
}


/// The position of the first user message.
fn find_first_user(messages: &Vec<NormalizedTranscriptMessage>) -> (r: Option<usize>)
    ensures
        match r {
            Some(i) => first_user(message_views(messages@)) == Some(i as int) && i < messages.len(),
            None => first_user(message_views(messages@)) is None,
        },
{
    let ghost s = message_views(messages@);
    let mut i: usize = 0;
    while i < messages.len()
        invariant
            i <= messages.len(),
            s == message_views(messages@),
            s.len() == messages@.len(),
            first_user(s.take(i as int)) is None,
        decreases messages.len() - i,
    {
        assert(s.take(i + 1).drop_last() =~= s.take(i as int));
        assert(s.take(i + 1).last() == messages@[i as int]@);
        if eq_lit(messages[i].role.as_str(), "user") {
            proof {
                lemma_first_user_prefix(s, i + 1);
            }
            return Some(i);
        }
        i = i + 1;
    }
    assert(s.take(messages.len() as int) =~= s);
    None
}

proof fn lemma_first_user_prefix(s: Seq<MessageView>, j: int)
    requires
        0 <= j <= s.len(),
        first_user(s.take(j)) is Some,
    ensures
        first_user(s) == first_user(s.take(j)),
    decreases s.len(),
{
    if j < s.len() {
        assert(s.drop_last().take(j) =~= s.take(j));
        lemma_first_user_prefix(s.drop_last(), j);
    } else {
        assert(s.take(j) =~= s);
    }
}

/// The title a session gets from its first user message.
pub fn infer_title_from_messages(messages: &Vec<NormalizedTranscriptMessage>) -> (r: Option<String>)
    ensures
        opt_seq(r) == session_title_spec(message_views(messages@)),
{
    match find_first_user(messages) {
        Some(i) => {
            assert(message_views(messages@)[i as int] == messages@[i as int]@);
            normalize_inferred_title(messages[i].text.as_str())
        },
        None => None,
    }
}

/// The progress of reading a session log line by line.
pub enum ScanState {
    /// Still reading: messages so far and the last comment kept.
    Reading(Seq<MessageView>, Option<MessageView>),
    /// Stopped at a partial last line.
    Stopped(Seq<MessageView>, Option<MessageView>),
    /// A malformed line, numbered from one.
    Failed(nat),
}

/// The state after the first `k` lines: blank lines are skipped; an undecodable line fails
/// the read, unless it is the last line and the log does not end with a newline (a line
/// still being written), which ends the read; commentary only updates the last comment;
/// other messages are appended, numbered by their position.
pub open spec fn scan_lines(
    lines: Seq<Seq<char>>,
    parsed: Seq<Option<TranscriptLogRecord>>,
    ends_with_newline: bool,
    k: nat,
) -> ScanState
    decreases k,
{
    if k == 0 {
        ScanState::Reading(seq![], None)
    } else {
        match scan_lines(lines, parsed, ends_with_newline, (k - 1) as nat) {
            ScanState::Reading(msgs, last) => {
                let i = k - 1;
                if trim_seq(lines[i]).len() == 0 {
                    ScanState::Reading(msgs, last)
                } else {
                    match parsed[i] {
                        None => if i + 1 == lines.len() && !ends_with_newline {
                            ScanState::Stopped(msgs, last)
                        } else {
                            ScanState::Failed(k)
                        },
                        Some(rec) => match record_message_spec(rec, msgs.len() + 1) {
                            None => ScanState::Reading(msgs, last),
                            Some(m) => if m.role == "commentary"@ {
                                if should_replace_spec(last, m) {
                                    ScanState::Reading(msgs, Some(m))
                                } else {
                                    ScanState::Reading(msgs, last)
                                }
                            } else {
                                ScanState::Reading(msgs.push(m), last)
                            },
                        },
                    }
                }
            },
            other => other,
        }
    }
}

proof fn lemma_scan_settled(
    lines: Seq<Seq<char>>,
    parsed: Seq<Option<TranscriptLogRecord>>,
    ends: bool,
    k: nat,
    k2: nat,
)
    requires
        k <= k2,
        !(scan_lines(lines, parsed, ends, k) is Reading),
    ensures
        scan_lines(lines, parsed, ends, k2) == scan_lines(lines, parsed, ends, k),
    decreases k2,
{
    if k2 > k {
        lemma_scan_settled(lines, parsed, ends, k, (k2 - 1) as nat);
    }
}

/// Reading a commentary message from a session log makes it the kept comment, the one the
/// transcript shows last: it replaces the comment kept so far unless both carry instants
/// and the new one is strictly earlier, in which case the earlier-read, later comment
/// stays. Either way the messages read so far are unchanged.
pub proof fn law_latest_commentary_is_kept(
    lines: Seq<Seq<char>>,
    parsed: Seq<Option<TranscriptLogRecord>>,
    ends_with_newline: bool,
    k: nat,
    msgs: Seq<MessageView>,
    last: Option<MessageView>,
    record: TranscriptLogRecord,
    m: MessageView,
)
    requires
        k < lines.len(),
        scan_lines(lines, parsed, ends_with_newline, k) == ScanState::Reading(msgs, last),
        trim_seq(lines[k as int]).len() > 0,
        parsed[k as int] == Some(record),
        record_message_spec(record, msgs.len() + 1) == Some(m),
        m.role == "commentary"@,
    ensures
        ({
            let next = scan_lines(lines, parsed, ends_with_newline, k + 1);
            if last matches Some(p) && p.timestamp matches Some(pt) && m.timestamp matches Some(ct)
                && ct < pt {
                next == ScanState::Reading(msgs, last)
            } else {
                next == ScanState::Reading(msgs, Some(m))
            }
        }),
{
    assert(((k + 1) as nat - 1) as nat == k);
}

/// Reading a message that is not commentary appends it to the messages read, numbered by
/// its position, and leaves the kept comment as it was; blank lines and records that
/// hold no message change nothing.
pub proof fn law_messages_are_appended_in_order(
    lines: Seq<Seq<char>>,
    parsed: Seq<Option<TranscriptLogRecord>>,
    ends_with_newline: bool,
    k: nat,
    msgs: Seq<MessageView>,
    last: Option<MessageView>,
)
    requires
        k < lines.len(),
        scan_lines(lines, parsed, ends_with_newline, k) == ScanState::Reading(msgs, last),
    ensures
        trim_seq(lines[k as int]).len() == 0 ==> scan_lines(lines, parsed, ends_with_newline, k + 1)
            == ScanState::Reading(msgs, last),
        trim_seq(lines[k as int]).len() > 0 ==> (parsed[k as int] matches Some(rec) ==> match record_message_spec(
            rec,
            msgs.len() + 1,
        ) {
            None => scan_lines(lines, parsed, ends_with_newline, k + 1) == ScanState::Reading(msgs, last),
            Some(m) => m.role != "commentary"@ ==> scan_lines(lines, parsed, ends_with_newline, k + 1)
                == ScanState::Reading(msgs.push(m), last),
        }),
{
    assert(((k + 1) as nat - 1) as nat == k);
}

/// Line `i` (from zero) of a session log is malformed: it is not blank and holds no
/// record, and it is not a last line still being written (one the log does not end after).
pub open spec fn malformed_line(
    lines: Seq<Seq<char>>,
    parsed: Seq<Option<TranscriptLogRecord>>,
    ends_with_newline: bool,
    i: int,
) -> bool {
    &&& trim_seq(lines[i]).len() > 0
    &&& parsed[i] is None
    &&& !(i + 1 == lines.len() && !ends_with_newline)
}

proof fn lemma_scan_failure(
    lines: Seq<Seq<char>>,
    parsed: Seq<Option<TranscriptLogRecord>>,
    ends: bool,
    k: nat,
)
    requires
        k <= lines.len(),
        parsed.len() == lines.len(),
    ensures
        scan_lines(lines, parsed, ends, k) is Stopped ==> k == lines.len(),
        !(scan_lines(lines, parsed, ends, k) is Failed) ==> forall|q: int|
            0 <= q < k ==> !malformed_line(lines, parsed, ends, q),
        scan_lines(lines, parsed, ends, k) matches ScanState::Failed(n) ==> {
            &&& 1 <= n <= k
            &&& malformed_line(lines, parsed, ends, n - 1)
            &&& forall|q: int| 0 <= q < n - 1 ==> !malformed_line(lines, parsed, ends, q)
        },
    decreases k,
{
    if k > 0 {
        lemma_scan_failure(lines, parsed, ends, (k - 1) as nat);
    }
}

/// Reading a session log fails at line `n` (counted from one) exactly when `n` is the
/// first malformed line: the first that is neither blank nor a record, a last line still
/// being written aside.
pub proof fn law_read_fails_at_first_malformed_line(
    lines: Seq<Seq<char>>,
    parsed: Seq<Option<TranscriptLogRecord>>,
    ends_with_newline: bool,
    n: nat,
)
    requires
        parsed.len() == lines.len(),
    ensures
        scan_lines(lines, parsed, ends_with_newline, lines.len()) == ScanState::Failed(n) <==> {
            &&& 1 <= n <= lines.len()
            &&& malformed_line(lines, parsed, ends_with_newline, n - 1)
            &&& forall|q: int|
                0 <= q < n - 1 ==> !malformed_line(lines, parsed, ends_with_newline, q)
        },
{
    lemma_scan_failure(lines, parsed, ends_with_newline, lines.len());
    let s = scan_lines(lines, parsed, ends_with_newline, lines.len());
    if 1 <= n <= lines.len() && malformed_line(lines, parsed, ends_with_newline, n - 1) && forall|
        q: int,
    | 0 <= q < n - 1 ==> !malformed_line(lines, parsed, ends_with_newline, q) {
        match s {
            ScanState::Failed(m) => {
                if m < n {
                    assert(!malformed_line(lines, parsed, ends_with_newline, m - 1));
                } else if m > n {
                    assert(!malformed_line(lines, parsed, ends_with_newline, n - 1));
                }
            },
            _ => {
                assert(!malformed_line(lines, parsed, ends_with_newline, n - 1));
            },
        }
    }
}

/// A transcript as the reader sees it.
#[derive(Debug)]
pub struct ConversationTranscriptSnapshot {
    pub messages: Vec<NormalizedTranscriptMessage>,
    pub session_title: Option<String>,
    pub last_comment: Option<String>,
}

/// Why a transcript could not be read.
#[derive(Debug, Clone, PartialEq, Eq)]
pub enum TranscriptReadError {
    ConversationNotFound { conversation_id: String },
    InvalidSessionLogPath,
    SessionLogMissing,
    MalformedLogLine { line: usize },
    Io { message: String },
}

/// The snapshot made from the messages read and the last comment kept: echoes merged,
/// bookkeeping dropped, the title taken from the first user message.
pub open spec fn snapshot_messages(msgs: Seq<MessageView>) -> Seq<MessageView> {
    filter_internal_spec(dedupe_spec(msgs))
}

/// The text of the last comment kept.
pub open spec fn comment_text(last: Option<MessageView>) -> Option<Seq<char>> {
    match last {
        Some(m) => Some(m.text),
        None => None,
    }
}

/// The name a log record gives the session's thread: the non-empty `thread_name` of a
/// `thread_name_updated` event.
pub open spec fn record_thread_name(record: TranscriptLogRecord) -> Option<Seq<char>> {
    match (opt_seq(record.record_type), record.payload) {
        (Some(t), Some(payload)) => {
            if (t == "event_msg"@ || t == "event message"@) && opt_seq(payload.payload_type) == Some(
                "thread_name_updated"@,
            ) {
                match opt_seq(payload.thread_name) {
                    Some(n) => if n.len() > 0 {
                        Some(n)
                    } else {
                        None
                    },
                    None => None,
                }
            } else {
                None
            }
        },
        _ => None,
    }
}

/// The latest thread name given among the first `k` lines (blank lines and undecodable lines
/// give none).
pub open spec fn latest_thread_name(
    lines: Seq<Seq<char>>,
    parsed: Seq<Option<TranscriptLogRecord>>,
    k: nat,
) -> Option<Seq<char>>
    decreases k,
{
    if k == 0 {
        None
    } else {
        let i = k - 1;
        let here = if trim_seq(lines[i]).len() == 0 {
            None
        } else {
            match parsed[i] {
                Some(rec) => record_thread_name(rec),
                None => None,
            }
        };
        match here {
            Some(n) => Some(n),
            None => latest_thread_name(lines, parsed, (k - 1) as nat),
        }
    }
}

/// The title of a session: the name its thread was last given, else one taken from its
/// first user message.
pub open spec fn snapshot_title(thread: Option<Seq<char>>, msgs: Seq<MessageView>) -> Option<
    Seq<char>,
> {
    match thread {
        Some(n) => Some(n),
        None => session_title_spec(snapshot_messages(msgs)),
    }
}

/// Whether a snapshot is the one a session log yields.
pub open spec fn snapshot_matches(
    snap: ConversationTranscriptSnapshot,
    msgs: Seq<MessageView>,
    last: Option<MessageView>,
    thread: Option<Seq<char>>,
) -> bool {
    &&& message_views(snap.messages@) == snapshot_messages(msgs)
    &&& opt_seq(snap.session_title) == snapshot_title(thread, msgs)
    &&& opt_seq(snap.last_comment) == comment_text(last)
}

fn record_thread_name_of(record: &TranscriptLogRecord) -> (r: Option<String>)
    ensures
        opt_seq(r) == record_thread_name(*record),
{
    let t = match &record.record_type {
        Some(t) => t,
        None => {
            return None;
        },
    };
    let payload = match &record.payload {
        Some(p) => p,
        None => {
            return None;
        },
    };
    if !(eq_lit(t.as_str(), "event_msg") || eq_lit(t.as_str(), "event message")) {
        return None;
    }
    let pt = match &payload.payload_type {
        Some(pt) => pt,
        None => {
            return None;
        },
    };
    if !eq_lit(pt.as_str(), "thread_name_updated") {
        return None;
    }
    match &payload.thread_name {
        Some(n) => {
            let nc = chars_of(n.as_str());
            if nc.len() > 0 {
                Some(n.clone())
            } else {
                None
            }
        },
        None => None,
    }
}

/// Whether the text ends with a newline.
pub open spec fn ends_with_newline(content: Seq<char>) -> bool {
    content.len() > 0 && content.last() == '\n'
}

/// Builds the transcript of a session log from its text and the decoded form of each of its
/// lines (`None` for a line that is not a JSON record).
pub fn build_transcript_snapshot(content: &str, parsed: &Vec<Option<TranscriptLogRecord>>) -> (r: Result<
    ConversationTranscriptSnapshot,
    TranscriptReadError,
>)
    requires
        parsed@.len() == lines_spec(content@).len(),
    ensures
        match scan_lines(
            lines_spec(content@),
            parsed@,
            ends_with_newline(content@),
            lines_spec(content@).len(),
        ) {
            ScanState::Reading(msgs, last) => r matches Ok(snap) && snapshot_matches(
                snap,
                msgs,
                last,
                latest_thread_name(lines_spec(content@), parsed@, lines_spec(content@).len()),
            ),
            ScanState::Stopped(msgs, last) => r matches Ok(snap) && snapshot_matches(
                snap,
                msgs,
                last,
                latest_thread_name(lines_spec(content@), parsed@, lines_spec(content@).len()),
            ),
            ScanState::Failed(n) => r matches Err(TranscriptReadError::MalformedLogLine { line })
                && line == n,
        },
{
    let lines = transcript_lines(content);
    let ghost lv = lines@.map_values(|s: String| s@);
    let cv = chars_of(content);
    let ends = cv.len() > 0 && cv[cv.len() - 1] == '\n';
    let ghost total = lv.len();
    let mut messages: Vec<NormalizedTranscriptMessage> = Vec::new();
    let mut last_comment: Option<NormalizedTranscriptMessage> = None;
    let mut thread_name: Option<String> = None;
    let mut i: usize = 0;
    let mut stopped = false;
    assert(message_views(messages@) =~= seq![]);
    while i < lines.len()
        invariant
            i <= lines.len(),
            lv == lines@.map_values(|s: String| s@),
            lv == lines_spec(content@),
            lv.len() == lines@.len(),
            parsed@.len() == lv.len(),
            ends == ends_with_newline(content@),
            !stopped ==> scan_lines(lv, parsed@, ends, i as nat) == ScanState::Reading(
                message_views(messages@),
                opt_message_view(last_comment),
            ),
            stopped ==> i == lines.len() && scan_lines(lv, parsed@, ends, i as nat)
                == ScanState::Stopped(message_views(messages@), opt_message_view(last_comment)),
            messages@.len() <= i,
            opt_seq(thread_name) == latest_thread_name(lv, parsed@, i as nat),
        decreases lines.len() - i,
    {
        assert(lv[i as int] == lines@[i as int]@);
        let lc = chars_of(lines[i].as_str());
        let t = trim(lc.as_slice());
        if t.len() == 0 {
            i = i + 1;
            continue;
        }
        match &parsed[i] {
            None => {
                if i + 1 == lines.len() && !ends {
                    i = i + 1;
                    stopped = true;
                    continue;
                }
                proof {
                    lemma_scan_settled(lv, parsed@, ends, (i + 1) as nat, lv.len());
                }
                return Err(TranscriptReadError::MalformedLogLine { line: i + 1 });
            },
            Some(rec) => {
                let named = record_thread_name_of(rec);
                if named.is_some() {
                    thread_name = named;
                }
                let n = (messages.len() + 1) as u64;
                match normalize_transcript_message(rec, n) {
                    None => {},
                    Some(m) => {
                        if eq_lit(m.role.as_str(), "commentary") {
                            let replace = match &last_comment {
                                None => true,
                                Some(p) => match p.timestamp {
                                    None => true,
                                    Some(pt) => match m.timestamp {
                                        Some(ct) => ct >= pt,
                                        None => true,
                                    },
                                },
                            };
                            if replace {
                                last_comment = Some(m);
                            }
                        } else {
                            let ghost before = message_views(messages@);
                            let ghost mv = m@;
                            messages.push(m);
                            assert(message_views(messages@) =~= before.push(mv));
                        }
                    },
                }
            },
        }
        i = i + 1;
    }
    let ghost final_msgs = message_views(messages@);
    let ghost final_last = opt_message_view(last_comment);
    let deduped = deduplicate_transcript_messages(messages);
    let filtered = filter_internal_transcript_messages(deduped);
    let session_title = match thread_name {
        Some(n) => Some(n),
        None => infer_title_from_messages(&filtered),
    };
    let comment = match last_comment {
        Some(m) => Some(m.text),
        None => None,
    };
    Ok(ConversationTranscriptSnapshot { messages: filtered, session_title, last_comment: comment })
}

/// The directory that session logs must lie under, for home directory `home`.
pub open spec fn sessions_root(home: Seq<char>) -> Seq<char> {
    join_path(home, ".codex/sessions"@)
}

/// Whether a path has a `..` component.
pub open spec fn has_parent_dir(cs: Seq<PathComponent>) -> bool {
    exists|i: int| 0 <= i < cs.len() && cs[i] == PathComponent::ParentDir
}

/// The session log path that may be read for a recorded path: an absolute `.jsonl` path
/// without `..`, normalized, that lies under the sessions root of the home directory.
/// `None` when there is no home directory or the path breaks one of these rules.
pub open spec fn session_log_check(home: Option<Seq<char>>, path: Seq<char>) -> Option<Seq<char>> {
    match home {
        None => None,
        Some(h) => if !is_absolute(path) || path_extension(path) != Some("jsonl"@) {
            None
        } else if has_parent_dir(path_components(path)) {
            None
        } else if !is_component_prefix(
            path_components(normalize_absolute_path_spec(path)),
            path_components(normalize_absolute_path_spec(sessions_root(h))),
        ) {
            None
        } else {
            Some(normalize_absolute_path_spec(path))
        },
    }
}

fn any_parent_dir(cs: &Vec<Component>) -> (r: bool)
    ensures
        r == has_parent_dir(component_views(cs@)),
{
    let ghost cv = component_views(cs@);
    let mut i: usize = 0;
    while i < cs.len()
        invariant
            i <= cs.len(),
            cv == component_views(cs@),
            cv.len() == cs@.len(),
            forall|k: int| 0 <= k < i ==> cv[k] != PathComponent::ParentDir,
        decreases cs.len() - i,
    {
        assert(cv[i as int] == cs@[i as int]@);
        match &cs[i] {
            Component::ParentDir => {
                return true;
            },
            _ => {},
        }
        i = i + 1;
    }
    false
}

/// Checks a recorded session log path against the home directory `home` (`None` when the
/// home directory is unknown) and gives the normalized path to read.
pub fn validate_session_log_path(home: Option<&str>, session_log_path: &str) -> (r: Result<
    String,
    TranscriptReadError,
>)
    ensures
        match session_log_check(opt_str_view(home), session_log_path@) {
            Some(p) => r matches Ok(s) && s@ == p,
            None => r matches Err(TranscriptReadError::InvalidSessionLogPath),
        },
{
    let h = match home {
        Some(h) => h,
        None => {
            return Err(TranscriptReadError::InvalidSessionLogPath);
        },
    };
    let path = chars_of(session_log_path);
    if !(path.len() > 0 && path[0] == '/') {
        return Err(TranscriptReadError::InvalidSessionLogPath);
    }
    let ext = extension_of_path(path.as_slice());
    let is_jsonl = match &ext {
        Some(e) => eq_lit(string_of(e.as_slice()).as_str(), "jsonl"),
        None => false,
    };
    if !is_jsonl {
        return Err(TranscriptReadError::InvalidSessionLogPath);
    }
    let cs = components(path.as_slice());
    if any_parent_dir(&cs) {
        return Err(TranscriptReadError::InvalidSessionLogPath);
    }
    let root = join(chars_of(h).as_slice(), chars_of(".codex/sessions").as_slice());
    let normalized = normalize_absolute_path(path.as_slice());
    let normalized_root = normalize_absolute_path(root.as_slice());
    if !path_starts_with(normalized.as_slice(), normalized_root.as_slice()) {
        return Err(TranscriptReadError::InvalidSessionLogPath);
    }
    Ok(string_of(normalized.as_slice()))
}

/// Where the transcript of a conversation is to be read from: `Ok(None)` when the
/// conversation has no session log yet, the validated log path otherwise.
pub open spec fn transcript_location_spec(
    records: Seq<crate::registry::RecordView>,
    conversation_id: Seq<char>,
    home: Option<Seq<char>>,
) -> Option<Option<Option<Seq<char>>>> {
    match find_record(records, conversation_id) {
        None => None,
        Some(i) => if trim_seq(records[i].session_log_path).len() == 0 {
            Some(None)
        } else {
            Some(Some(session_log_check(home, records[i].session_log_path)))
        },
    }
}

/// Finds the session log of a conversation in its book's registry: the conversation must
/// be registered; a conversation without a log has an empty transcript (`Ok(None)`);
/// otherwise the recorded path must pass `validate_session_log_path`.
pub fn transcript_log_location(
    registry: &ConversationRegistry,
    conversation_id: &str,
    home: Option<&str>,
) -> (r: Result<Option<String>, TranscriptReadError>)
    ensures
        match transcript_location_spec(
            record_views(registry.conversations@),
            conversation_id@,
            opt_str_view(home),
        ) {
            None => r matches Err(TranscriptReadError::ConversationNotFound { conversation_id: c })
                && c@ == conversation_id@,
            Some(None) => r matches Ok(None),
            Some(Some(None)) => r matches Err(TranscriptReadError::InvalidSessionLogPath),
            Some(Some(Some(p))) => r matches Ok(Some(s)) && s@ == p,
        },
{
    match position_of(&registry.conversations, conversation_id) {
        None => Err(TranscriptReadError::ConversationNotFound {
            conversation_id: conversation_id.to_string(),
        }),
        Some(i) => {
            let rec = &registry.conversations[i];
            assert(record_views(registry.conversations@)[i as int] == rec@);
            let lp = chars_of(rec.session_log_path.as_str());
            if trim(lp.as_slice()).len() == 0 {
                Ok(None)
            } else {
                match validate_session_log_path(home, rec.session_log_path.as_str()) {
                    Ok(p) => Ok(Some(p)),
                    Err(e) => Err(e),
                }
            }
        },
    }
}

} // verus!
