//! Domain records shared by messaging, storage and the reader.
//!
//! Instants are held as signed nanoseconds since the Unix epoch (UTC).
use vstd::prelude::*;

use crate::text::{
    all_ascii, ascii_lower, ascii_lower_seq, chars_eq, chars_of, is_ws, string_of, to_lowercase,
    trim, trim_end_seq, trim_seq, trim_start_seq, unicode_lowercase,
};

verus! {

broadcast use vstd::string::group_string_axioms;

/// The messenger (or the web app) a conversation comes from.
#[derive(Debug, Clone, Copy, PartialEq, Eq, Structural)]
pub enum Provider {
    App,
    Telegram,
    Max,
}

/// The stable name of a provider.
pub open spec fn provider_name(p: Provider) -> Seq<char> {
    match p {
        Provider::App => "app"@,
        Provider::Telegram => "telegram"@,
        Provider::Max => "max"@,
    }
}

impl Provider {
    /// The stable lower-case name of the provider.
    pub fn as_str(&self) -> (r: &'static str)
        ensures
            r@ == provider_name(*self),
    {
        match self {
            Provider::App => "app",
            Provider::Telegram => "telegram",
            Provider::Max => "max",
        }
    }
}

#[derive(Debug, Clone, Copy, PartialEq, Eq, Structural)]
pub enum ConversationStatus {
    Active,
    Archived,
}

#[derive(Debug, Clone, Copy, PartialEq, Eq, Structural)]
pub enum BookStatus {
    Active,
    Archived,
    Blocked,
}

#[derive(Debug, Clone, Copy, PartialEq, Eq, Structural)]
pub enum SessionStatus {
    Active,
    Idle,
    Closed,
}

#[derive(Debug, Clone, Copy, PartialEq, Eq, Structural)]
pub enum JobStatus {
    Received,
    Accepted,
    Running,
    Succeeded,
    Failed,
    TimedOut,
    Cancelled,
}

#[derive(Debug, Clone, Copy, PartialEq, Eq, Structural)]
pub enum CommandKind {
    Init,
    Status,
    Authoring,
}

#[derive(Debug, Clone, Copy, PartialEq, Eq, Structural)]
pub enum RevisionRenderStatus {
    Pending,
    Ready,
    Failed,
}

#[derive(Debug, Clone, Copy, PartialEq, Eq, Structural)]
pub enum RepositoryBindingStatus {
    Unlinked,
    Linked,
    Error,
}

#[derive(Debug, Clone, Copy, PartialEq, Eq, Structural)]
pub enum MessageAttachmentKind {
    Image,
}

/// The language a book is written in.
#[derive(Debug, Clone, Copy, PartialEq, Eq, Structural)]
pub enum BookLanguage {
    English,
    Russian,
}

/// The language named by an already trimmed, lower-cased code.
pub open spec fn language_for_code(code: Seq<char>) -> Option<BookLanguage> {
    if code == "en"@ || code == "eng"@ || code == "english"@ {
        Some(BookLanguage::English)
    } else if code == "ru"@ || code == "rus"@ || code == "russian"@ || code == "русский"@ || code
        == "русскии"@ || code == "рус"@ {
        Some(BookLanguage::Russian)
    } else {
        None
    }
}

/// The language a user-supplied value names: trimmed, lower-cased, then looked up.
pub open spec fn parse_language(value: Seq<char>) -> Option<BookLanguage> {
    language_for_code(unicode_lowercase(trim_seq(value)))
}

/// The language an ASCII value names: trimmed, lower-cased by ASCII rules, then looked up.
pub open spec fn ascii_language(value: Seq<char>) -> Option<BookLanguage> {
    language_for_code(ascii_lower_seq(trim_seq(value)))
}

/// The English name of a language.
pub open spec fn language_name(l: BookLanguage) -> Seq<char> {
    match l {
        BookLanguage::English => "English"@,
        BookLanguage::Russian => "Russian"@,
    }
}

proof fn lemma_lower_keeps_ws(c: char)
    ensures
        is_ws(ascii_lower(c)) == is_ws(c),
        ascii_lower(ascii_lower(c)) == ascii_lower(c),
{
}

proof fn lemma_trim_start_lower(s: Seq<char>)
    ensures
        trim_start_seq(ascii_lower_seq(s)) == ascii_lower_seq(trim_start_seq(s)),
    decreases s.len(),
{
    if s.len() > 0 {
        lemma_lower_keeps_ws(s[0]);
        assert(ascii_lower_seq(s)[0] == ascii_lower(s[0]));
        assert(ascii_lower_seq(s).drop_first() =~= ascii_lower_seq(s.drop_first()));
        lemma_trim_start_lower(s.drop_first());
    } else {
        assert(ascii_lower_seq(s) =~= s);
    }
}

proof fn lemma_trim_end_lower(s: Seq<char>)
    ensures
        trim_end_seq(ascii_lower_seq(s)) == ascii_lower_seq(trim_end_seq(s)),
    decreases s.len(),
{
    if s.len() > 0 {
        lemma_lower_keeps_ws(s.last());
        assert(ascii_lower_seq(s).last() == ascii_lower(s.last()));
        assert(ascii_lower_seq(s).drop_last() =~= ascii_lower_seq(s.drop_last()));
        lemma_trim_end_lower(s.drop_last());
    } else {
        assert(ascii_lower_seq(s) =~= s);
    }
}

proof fn lemma_lower_idempotent(t: Seq<char>)
    ensures
        ascii_lower_seq(ascii_lower_seq(t)) == ascii_lower_seq(t),
{
    assert forall|i: int| 0 <= i < t.len() implies ascii_lower(ascii_lower(t[i])) == ascii_lower(t[i]) by {
        lemma_lower_keeps_ws(t[i]);
    }
    assert(ascii_lower_seq(ascii_lower_seq(t)) =~= ascii_lower_seq(t));
}

/// A language is named by its code and by its English name, and a value names the same
/// language whatever the ASCII letter case it is written in.
pub proof fn law_language_names(l: BookLanguage, value: Seq<char>)
    ensures
        ascii_language(language_code(l)) == Some(l),
        ascii_language(language_name(l)) == Some(l),
        ascii_language(ascii_lower_seq(value)) == ascii_language(value),
{
    reveal_strlit("en");
    reveal_strlit("ru");
    reveal_strlit("English");
    reveal_strlit("Russian");
    reveal_strlit("english");
    reveal_strlit("russian");
    reveal_strlit("eng");
    reveal_strlit("rus");
    reveal_strlit("русский");
    reveal_strlit("русскии");
    reveal_strlit("рус");
    let c = language_code(l);
    let n = language_name(l);
    assert(trim_start_seq(c) == c);
    assert(trim_end_seq(c) == c);
    assert(trim_start_seq(n) == n);
    assert(trim_end_seq(n) == n);
    assert(ascii_lower_seq(c) =~= c);
    assert(trim_seq(c) == c);
    assert(trim_seq(n) == n);
    match l {
        BookLanguage::English => {
            assert(ascii_lower_seq(n) =~= "english"@);
            assert(ascii_lower_seq(trim_seq(n)) == "english"@);
            assert(language_for_code("english"@) == Some(BookLanguage::English));
        },
        BookLanguage::Russian => {
            assert(ascii_lower_seq(n) =~= "russian"@);
            assert(ascii_lower_seq(trim_seq(n)) == "russian"@);
            assert("russian"@[0] != "english"@[0]);
            assert("russian"@ != "english"@);
            assert(language_for_code("russian"@) == Some(BookLanguage::Russian));
        },
    }
    lemma_trim_start_lower(value);
    lemma_trim_end_lower(trim_start_seq(value));
    let t = trim_seq(value);
    lemma_lower_idempotent(t);
}

/// The two-letter code of a language.
pub open spec fn language_code(l: BookLanguage) -> Seq<char> {
    match l {
        BookLanguage::English => "en"@,
        BookLanguage::Russian => "ru"@,
    }
}

impl Default for BookLanguage {
    fn default() -> (r: Self)
        ensures
            r == BookLanguage::English,
    {
        BookLanguage::English
    }
}

fn eq_lit(v: &[char], lit: &str) -> (r: bool)
    ensures
        r == (v@ == lit@),
{
    let l = chars_of(lit);
    chars_eq(v, l.as_slice())
}

impl BookLanguage {
    /// The language named by `code`, which the caller has already trimmed and lower-cased.
    pub fn from_code(code: &str) -> (r: Option<BookLanguage>)
        ensures
            r == language_for_code(code@),
    {
        let v = chars_of(code);
        let c = v.as_slice();
        if eq_lit(c, "en") || eq_lit(c, "eng") || eq_lit(c, "english") {
            Some(BookLanguage::English)
        } else if eq_lit(c, "ru") || eq_lit(c, "rus") || eq_lit(c, "russian") || eq_lit(
            c,
            "русский",
        ) || eq_lit(c, "русскии") || eq_lit(c, "рус") {
            Some(BookLanguage::Russian)
        } else {
            None
        }
    }

    /// The language a user-supplied value names, if any. ASCII text is lower-cased by the
    /// ASCII rules.
    pub fn parse(value: &str) -> (r: Option<BookLanguage>)
        ensures
            r == parse_language(value@),
            all_ascii(trim_seq(value@)) ==> r == ascii_language(value@),
    {
        let v = chars_of(value);
        let t = trim(v.as_slice());
        let ts = string_of(t.as_slice());
        let lower = to_lowercase(ts.as_str());
        BookLanguage::from_code(lower.as_str())
    }

    /// The language recorded in a manifest, English when it names none.
    pub fn from_manifest_code(value: &str) -> (r: BookLanguage)
        ensures
            r == match parse_language(value@) {
                Some(l) => l,
                None => BookLanguage::English,
            },
    {
        match BookLanguage::parse(value) {
            Some(l) => l,
            None => BookLanguage::English,
        }
    }

    /// The two-letter code of the language.
    pub fn code(self) -> (r: &'static str)
        ensures
            r@ == language_code(self),
    {
        match self {
            BookLanguage::English => "en",
            BookLanguage::Russian => "ru",
        }
    }

    /// The English name of the language.
    pub fn display_name(self) -> (r: &'static str)
        ensures
            r@ == language_name(self),
    {
        match self {
            BookLanguage::English => "English",
            BookLanguage::Russian => "Russian",
        }
    }
}

/// An image (or other file) attached to an inbound message.
#[derive(Debug, Clone, PartialEq, Eq)]
pub struct MessageAttachment {
    pub kind: MessageAttachmentKind,
    pub provider_file_id: String,
    pub provider_unique_id: Option<String>,
    pub original_filename: Option<String>,
    pub mime_type: Option<String>,
    pub width: Option<u32>,
    pub height: Option<u32>,
    pub file_size: Option<u64>,
    pub caption: Option<String>,
}

/// The mathematical form of an attachment.
pub struct AttachmentView {
    pub kind: MessageAttachmentKind,
    pub provider_file_id: Seq<char>,
    pub provider_unique_id: Option<Seq<char>>,
    pub original_filename: Option<Seq<char>>,
    pub mime_type: Option<Seq<char>>,
    pub width: Option<u32>,
    pub height: Option<u32>,
    pub file_size: Option<u64>,
    pub caption: Option<Seq<char>>,
}

/// The view of an optional string.
pub open spec fn opt_text(o: Option<String>) -> Option<Seq<char>> {
    match o {
        Some(s) => Some(s@),
        None => None,
    }
}

impl View for MessageAttachment {
    type V = AttachmentView;

    open spec fn view(&self) -> AttachmentView {
        AttachmentView {
            kind: self.kind,
            provider_file_id: self.provider_file_id@,
            provider_unique_id: opt_text(self.provider_unique_id),
            original_filename: opt_text(self.original_filename),
            mime_type: opt_text(self.mime_type),
            width: self.width,
            height: self.height,
            file_size: self.file_size,
            caption: opt_text(self.caption),
        }
    }
}

/// The views of a list of attachments.
pub open spec fn attachment_views(v: Seq<MessageAttachment>) -> Seq<AttachmentView> {
    v.map_values(|a: MessageAttachment| a@)
}

/// A copy of an optional string.
pub fn copy_text(o: &Option<String>) -> (r: Option<String>)
    ensures
        opt_text(r) == opt_text(*o),
{
    match o {
        Some(s) => Some(s.clone()),
        None => None,
    }
}

impl MessageAttachment {
    /// A copy of the attachment.
    pub fn copy(&self) -> (r: MessageAttachment)
        ensures
            r@ == self@,
    {
        MessageAttachment {
            kind: self.kind,
            provider_file_id: self.provider_file_id.clone(),
            provider_unique_id: copy_text(&self.provider_unique_id),
            original_filename: copy_text(&self.original_filename),
            mime_type: copy_text(&self.mime_type),
            width: self.width,
            height: self.height,
            file_size: self.file_size,
            caption: copy_text(&self.caption),
        }
    }
}

/// A message from any provider, in one shape.
#[derive(Debug, Clone)]
pub struct NormalizedMessage {
    pub provider: Provider,
    pub provider_chat_id: String,
    pub message_id: String,
    pub timestamp: i64,
    pub raw_text: String,
    pub attachments: Vec<MessageAttachment>,
    pub mentions_bot: bool,
    pub sender_display_name: String,
}

/// A reply to send back to a chat.
#[derive(Debug, Clone)]
pub struct Notification {
    pub provider: Provider,
    pub provider_chat_id: String,
    pub message: String,
    pub reader_url: Option<String>,
}

#[derive(Debug, Clone)]
pub struct ReaderContentChapter {
    pub id: String,
    pub title: String,
    pub kind: String,
    pub html: String,
}

#[derive(Debug, Clone)]
pub struct ReaderContentResponse {
    pub revision_id: String,
    pub content_hash: String,
    pub chapter_index: usize,
    pub chapter_id: String,
    pub title: String,
    pub source_file: String,
    pub html: String,
    pub has_more: bool,
    pub next_cursor: Option<String>,
}

#[derive(Debug, Clone)]
pub struct ReaderErrorResponse {
    pub code: String,
    pub message: String,
}

} // verus!
