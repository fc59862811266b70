//! The service's records — conversations, books, authoring sessions, writing jobs,
//! revisions and repository bindings — and the rules by which they are created and
//! changed.
//!
//! Each table is a list of records with distinct keys, read and written like a map:
//! putting a record replaces the one with the same key or adds it. Instants are
//! nanoseconds since the Unix epoch and are handed in by the caller.
use vstd::prelude::*;

use crate::models::{
    BookStatus, CommandKind, ConversationStatus, JobStatus, Provider, RepositoryBindingStatus,
    RevisionRenderStatus, SessionStatus, provider_name,
};
use crate::text::{chars_eq, chars_of, decimal, decimal_u64, has_prefix, push_all, push_str, starts_with, string_of};

verus! {

broadcast use vstd::string::group_string_axioms;

/// A record that a table finds by a text key.
pub trait Keyed {
    /// The key of the record.
    spec fn key_view(&self) -> Seq<char>;

    /// The key of the record.
    fn key(&self) -> (r: &str)
        ensures
            r@ == self.key_view();
}

/// Whether no key occurs twice.
pub open spec fn unique_keys<T: Keyed>(v: Seq<T>) -> bool {
    forall|i: int, j: int|
        0 <= i < j < v.len() ==> (#[trigger] v[i]).key_view() != (#[trigger] v[j]).key_view()
}

/// The position of the record with key `k`, if any.
pub open spec fn key_position<T: Keyed>(v: Seq<T>, k: Seq<char>) -> Option<int> {
    if exists|i: int| 0 <= i < v.len() && v[i].key_view() == k {
        Some(choose|i: int| 0 <= i < v.len() && v[i].key_view() == k)
    } else {
        None
    }
}

/// The record with key `k`, if any.
pub open spec fn lookup<T: Keyed + View>(v: Seq<T>, k: Seq<char>) -> Option<T::V> {
    match key_position(v, k) {
        Some(i) => Some(v[i]@),
        None => None,
    }
}

proof fn lemma_key_position<T: Keyed>(v: Seq<T>, k: Seq<char>, i: int)
    requires
        unique_keys(v),
        0 <= i < v.len(),
        v[i].key_view() == k,
    ensures
        key_position(v, k) == Some(i),
{
    let j = choose|j: int| 0 <= j < v.len() && v[j].key_view() == k;
    assert(0 <= j < v.len() && v[j].key_view() == k);
    if j != i {
        if j < i {
            assert(v[j].key_view() != v[i].key_view());
        } else {
            assert(v[i].key_view() != v[j].key_view());
        }
    }
}

/// The position of the record with key `key`.
pub fn position_of_key<T: Keyed>(v: &Vec<T>, key: &str) -> (r: Option<usize>)
    requires
        unique_keys(v@),
    ensures
        match r {
            Some(i) => i < v@.len() && key_position(v@, key@) == Some(i as int),
            None => key_position(v@, key@) is None,
        },
{
    let k = chars_of(key);
    let mut i: usize = 0;
    while i < v.len()
        invariant
            i <= v@.len(),
            k@ == key@,
            unique_keys(v@),
            forall|q: int| 0 <= q < i ==> v@[q].key_view() != key@,
        decreases v.len() - i,
    {
        if chars_eq(chars_of(v[i].key()).as_slice(), k.as_slice()) {
            proof {
                lemma_key_position(v@, key@, i as int);
            }
            return Some(i);
        }
        i = i + 1;
    }
    None
}

/// Puts a record into a table: it replaces the record with the same key, or is added.
pub fn put<T: Keyed + View>(v: &mut Vec<T>, x: T)
    requires
        unique_keys(old(v)@),
    ensures
        unique_keys(final(v)@),
        forall|k: Seq<char>|
            #[trigger] lookup(final(v)@, k) == if k == x.key_view() {
                Some(x@)
            } else {
                lookup(old(v)@, k)
            },
        lookup(old(v)@, x.key_view()) is None ==> final(v)@.len() == old(v)@.len() + 1,
        lookup(old(v)@, x.key_view()) is Some ==> final(v)@.len() == old(v)@.len(),
{
    let ghost before = v@;
    let ghost xk = x.key_view();
    let ghost xv = x@;
    let pos = position_of_key(v, x.key());
    match pos {
        Some(i) => {
            v.set(i, x);
            let ghost after = v@;
            assert(after == before.update(i as int, x));
            assert forall|a: int, b: int| 0 <= a < b < after.len() implies (#[trigger] after[a]).key_view()
                != (#[trigger] after[b]).key_view() by {
                if a != i && b != i {
                    assert(after[a] == before[a] && after[b] == before[b]);
                } else if a == i {
                    assert(after[b] == before[b]);
                    assert(before[i as int].key_view() == xk);
                } else {
                    assert(after[a] == before[a]);
                    assert(before[i as int].key_view() == xk);
                }
            }
            assert forall|k: Seq<char>| #[trigger]
                lookup(after, k) == if k == xk {
                    Some(xv)
                } else {
                    lookup(before, k)
                } by {
                if k == xk {
                    lemma_key_position(after, k, i as int);
                } else {
                    if let Some(j) = key_position(before, k) {
                        assert(before[j].key_view() == k);
                        assert(j != i);
                        lemma_key_position(after, k, j);
                    } else {
                        if let Some(j) = key_position(after, k) {
                            assert(after[j].key_view() == k);
                            if j == i {
                                assert(false);
                            } else {
                                assert(before[j].key_view() == k);
                            }
                        }
                    }
                }
            }
        },
        None => {
            v.push(x);
            let ghost after = v@;
            assert(after == before.push(x));
            assert forall|a: int, b: int| 0 <= a < b < after.len() implies (#[trigger] after[a]).key_view()
                != (#[trigger] after[b]).key_view() by {
                if b == before.len() {
                    assert(after[a] == before[a]);
                    if before[a].key_view() == xk {
                        assert(exists|q: int| 0 <= q < before.len() && before[q].key_view() == xk);
                    }
                } else {
                    assert(after[a] == before[a] && after[b] == before[b]);
                }
            }
            assert forall|k: Seq<char>| #[trigger]
                lookup(after, k) == if k == xk {
                    Some(xv)
                } else {
                    lookup(before, k)
                } by {
                if k == xk {
                    lemma_key_position(after, k, before.len() as int);
                } else {
                    if let Some(j) = key_position(before, k) {
                        assert(before[j].key_view() == k);
                        assert(after[j] == before[j]);
                        lemma_key_position(after, k, j);
                    } else {
                        if let Some(j) = key_position(after, k) {
                            assert(after[j].key_view() == k);
                            if j < before.len() {
                                assert(after[j] == before[j]);
                            }
                        }
                    }
                }
            }
        },
    }
}

/// The conversation key of a provider chat: prefixed with `<provider>:` unless it
/// already is.
pub open spec fn conversation_key(provider: Provider, chat: Seq<char>) -> Seq<char> {
    let prefix = provider_name(provider) + ":"@;
    if has_prefix(chat, prefix) {
        chat
    } else {
        prefix + chat
    }
}

/// A chat named with or without its provider prefix is the same conversation: keying a key
/// again changes nothing, the key always carries the prefix, and a chat id and the same id
/// with the prefix give one key.
pub proof fn law_conversation_key_is_stable(provider: Provider, chat: Seq<char>)
    ensures
        conversation_key(provider, conversation_key(provider, chat)) == conversation_key(
            provider,
            chat,
        ),
        has_prefix(conversation_key(provider, chat), provider_name(provider) + ":"@),
        !has_prefix(chat, provider_name(provider) + ":"@) ==> conversation_key(
            provider,
            provider_name(provider) + ":"@ + chat,
        ) == conversation_key(provider, chat),
{
    let prefix = provider_name(provider) + ":"@;
    assert((prefix + chat).take(prefix.len() as int) =~= prefix);
}

/// The conversation key of a provider chat.
pub fn normalize_conversation_id(provider: &Provider, provider_chat_id: &str) -> (r: String)
    ensures
        r@ == conversation_key(*provider, provider_chat_id@),
{
    let mut prefix = chars_of(provider.as_str());
    push_str(&mut prefix, ":");
    let chat = chars_of(provider_chat_id);
    if starts_with(chat.as_slice(), prefix.as_slice()) {
        provider_chat_id.to_string()
    } else {
        push_all(&mut prefix, chat.as_slice());
        string_of(prefix.as_slice())
    }
}

/// A conversation with the service.
#[derive(Debug)]
pub struct Conversation {
    pub conversation_id: String,
    pub provider: Provider,
    pub provider_chat_id: String,
    pub title: String,
    pub created_at: i64,
    pub status: ConversationStatus,
}

/// The mathematical form of a conversation.
pub struct ConversationView {
    pub conversation_id: Seq<char>,
    pub provider: Provider,
    pub provider_chat_id: Seq<char>,
    pub title: Seq<char>,
    pub created_at: i64,
    pub status: ConversationStatus,
}

impl View for Conversation {
    type V = ConversationView;

    open spec fn view(&self) -> ConversationView {
        ConversationView {
            conversation_id: self.conversation_id@,
            provider: self.provider,
            provider_chat_id: self.provider_chat_id@,
            title: self.title@,
            created_at: self.created_at,
            status: self.status,
        }
    }
}

impl Keyed for Conversation {
    open spec fn key_view(&self) -> Seq<char> {
        self.conversation_id@
    }

    fn key(&self) -> (r: &str) {
        self.conversation_id.as_str()
    }
}

impl Conversation {
    /// A copy of the conversation.
    pub fn copy(&self) -> (r: Conversation)
        ensures
            r@ == self@,
    {
        Conversation {
            conversation_id: self.conversation_id.clone(),
            provider: self.provider,
            provider_chat_id: self.provider_chat_id.clone(),
            title: self.title.clone(),
            created_at: self.created_at,
            status: self.status,
        }
    }
}

/// A book being written in a conversation.
#[derive(Debug)]
pub struct Book {
    pub book_id: String,
    pub conversation_id: String,
    pub title: String,
    pub status: BookStatus,
    pub workspace_path: String,
    pub created_at: i64,
    pub updated_at: i64,
}

/// The mathematical form of a book.
pub struct BookView {
    pub book_id: Seq<char>,
    pub conversation_id: Seq<char>,
    pub title: Seq<char>,
    pub status: BookStatus,
    pub workspace_path: Seq<char>,
    pub created_at: i64,
    pub updated_at: i64,
}

impl View for Book {
    type V = BookView;

    open spec fn view(&self) -> BookView {
        BookView {
            book_id: self.book_id@,
            conversation_id: self.conversation_id@,
            title: self.title@,
            status: self.status,
            workspace_path: self.workspace_path@,
            created_at: self.created_at,
            updated_at: self.updated_at,
        }
    }
}

impl Keyed for Book {
    open spec fn key_view(&self) -> Seq<char> {
        self.book_id@
    }

    fn key(&self) -> (r: &str) {
        self.book_id.as_str()
    }
}

impl Book {
    /// A copy of the book.
    pub fn copy(&self) -> (r: Book)
        ensures
            r@ == self@,
    {
        Book {
            book_id: self.book_id.clone(),
            conversation_id: self.conversation_id.clone(),
            title: self.title.clone(),
            status: self.status,
            workspace_path: self.workspace_path.clone(),
            created_at: self.created_at,
            updated_at: self.updated_at,
        }
    }
}

/// Which book a conversation writes.
#[derive(Debug)]
pub struct ConversationBook {
    pub conversation_id: String,
    pub book_id: String,
}

/// The mathematical form of a conversation's book link.
pub struct ConversationBookView {
    pub conversation_id: Seq<char>,
    pub book_id: Seq<char>,
}

impl View for ConversationBook {
    type V = ConversationBookView;

    open spec fn view(&self) -> ConversationBookView {
        ConversationBookView { conversation_id: self.conversation_id@, book_id: self.book_id@ }
    }
}

impl Keyed for ConversationBook {
    open spec fn key_view(&self) -> Seq<char> {
        self.conversation_id@
    }

    fn key(&self) -> (r: &str) {
        self.conversation_id.as_str()
    }
}

/// An authoring session of an agent on a book.
#[derive(Debug)]
pub struct AuthoringSession {
    pub session_id: String,
    pub conversation_id: String,
    pub book_id: String,
    pub status: SessionStatus,
    pub last_message_at: i64,
}

/// The mathematical form of a session.
pub struct SessionView {
    pub session_id: Seq<char>,
    pub conversation_id: Seq<char>,
    pub book_id: Seq<char>,
    pub status: SessionStatus,
    pub last_message_at: i64,
}

impl View for AuthoringSession {
    type V = SessionView;

    open spec fn view(&self) -> SessionView {
        SessionView {
            session_id: self.session_id@,
            conversation_id: self.conversation_id@,
            book_id: self.book_id@,
            status: self.status,
            last_message_at: self.last_message_at,
        }
    }
}

impl Keyed for AuthoringSession {
    open spec fn key_view(&self) -> Seq<char> {
        self.session_id@
    }

    fn key(&self) -> (r: &str) {
        self.session_id.as_str()
    }
}

impl AuthoringSession {
    /// A copy of the session.
    pub fn copy(&self) -> (r: AuthoringSession)
        ensures
            r@ == self@,
    {
        AuthoringSession {
            session_id: self.session_id.clone(),
            conversation_id: self.conversation_id.clone(),
            book_id: self.book_id.clone(),
            status: self.status,
            last_message_at: self.last_message_at,
        }
    }
}

/// One request to the agent and what became of it.
#[derive(Debug)]
pub struct WritingJob {
    pub job_id: String,
    pub book_id: String,
    pub conversation_id: String,
    pub session_id: String,
    pub source_message_id: String,
    pub status: JobStatus,
    pub command_kind: CommandKind,
    pub prompt_snapshot: String,
    pub started_at: Option<i64>,
    pub finished_at: Option<i64>,
    pub user_facing_message: Option<String>,
    pub changed_files: Vec<String>,
    pub failure_reason: Option<String>,
}

/// The mathematical form of a job.
pub struct JobView {
    pub job_id: Seq<char>,
    pub book_id: Seq<char>,
    pub conversation_id: Seq<char>,
    pub session_id: Seq<char>,
    pub source_message_id: Seq<char>,
    pub status: JobStatus,
    pub command_kind: CommandKind,
    pub prompt_snapshot: Seq<char>,
    pub started_at: Option<i64>,
    pub finished_at: Option<i64>,
    pub user_facing_message: Option<Seq<char>>,
    pub changed_files: Seq<Seq<char>>,
    pub failure_reason: Option<Seq<char>>,
}

/// The views of a list of texts.
pub open spec fn text_views(v: Seq<String>) -> Seq<Seq<char>> {
    v.map_values(|s: String| s@)
}

impl View for WritingJob {
    type V = JobView;

    open spec fn view(&self) -> JobView {
        JobView {
            job_id: self.job_id@,
            book_id: self.book_id@,
            conversation_id: self.conversation_id@,
            session_id: self.session_id@,
            source_message_id: self.source_message_id@,
            status: self.status,
            command_kind: self.command_kind,
            prompt_snapshot: self.prompt_snapshot@,
            started_at: self.started_at,
            finished_at: self.finished_at,
            user_facing_message: crate::models::opt_text(self.user_facing_message),
            changed_files: text_views(self.changed_files@),
            failure_reason: crate::models::opt_text(self.failure_reason),
        }
    }
}

impl Keyed for WritingJob {
    open spec fn key_view(&self) -> Seq<char> {
        self.job_id@
    }

    fn key(&self) -> (r: &str) {
        self.job_id.as_str()
    }
}

/// A copy of a list of texts.
pub fn copy_texts(v: &Vec<String>) -> (r: Vec<String>)
    ensures
        text_views(r@) == text_views(v@),
{
    let mut out: Vec<String> = Vec::new();
    let mut i: usize = 0;
    while i < v.len()
        invariant
            i <= v@.len(),
            text_views(out@) == text_views(v@).take(i as int),
        decreases v.len() - i,
    {
        let c = v[i].clone();
        let ghost before = text_views(out@);
        out.push(c);
        assert(text_views(out@) =~= before.push(c@));
        assert(text_views(v@).take(i + 1) =~= text_views(v@).take(i as int).push(v@[i as int]@));
        i = i + 1;
    }
    assert(text_views(v@).take(v@.len() as int) =~= text_views(v@));
    out
}

impl WritingJob {
    /// A copy of the job.
    pub fn copy(&self) -> (r: WritingJob)
        ensures
            r@ == self@,
    {
        WritingJob {
            job_id: self.job_id.clone(),
            book_id: self.book_id.clone(),
            conversation_id: self.conversation_id.clone(),
            session_id: self.session_id.clone(),
            source_message_id: self.source_message_id.clone(),
            status: self.status,
            command_kind: self.command_kind,
            prompt_snapshot: self.prompt_snapshot.clone(),
            started_at: self.started_at,
            finished_at: self.finished_at,
            user_facing_message: crate::models::copy_text(&self.user_facing_message),
            changed_files: copy_texts(&self.changed_files),
            failure_reason: crate::models::copy_text(&self.failure_reason),
        }
    }
}

/// A revision of a book, made by a job.
#[derive(Debug)]
pub struct Revision {
    pub revision_id: String,
    pub book_id: String,
    pub job_id: String,
    pub summary: String,
    pub created_at: i64,
    pub render_status: RevisionRenderStatus,
}

/// The mathematical form of a revision.
pub struct RevisionView {
    pub revision_id: Seq<char>,
    pub book_id: Seq<char>,
    pub job_id: Seq<char>,
    pub summary: Seq<char>,
    pub created_at: i64,
    pub render_status: RevisionRenderStatus,
}

impl View for Revision {
    type V = RevisionView;

    open spec fn view(&self) -> RevisionView {
        RevisionView {
            revision_id: self.revision_id@,
            book_id: self.book_id@,
            job_id: self.job_id@,
            summary: self.summary@,
            created_at: self.created_at,
            render_status: self.render_status,
        }
    }
}

impl Keyed for Revision {
    open spec fn key_view(&self) -> Seq<char> {
        self.revision_id@
    }

    fn key(&self) -> (r: &str) {
        self.revision_id.as_str()
    }
}

impl Revision {
    /// A copy of the revision.
    pub fn copy(&self) -> (r: Revision)
        ensures
            r@ == self@,
    {
        Revision {
            revision_id: self.revision_id.clone(),
            book_id: self.book_id.clone(),
            job_id: self.job_id.clone(),
            summary: self.summary.clone(),
            created_at: self.created_at,
            render_status: self.render_status,
        }
    }
}

/// The repository a book is published to.
#[derive(Debug)]
pub struct RepositoryBinding {
    pub repository_binding_id: String,
    pub book_id: String,
    pub provider: String,
    pub repository_url: String,
    pub repository_name: String,
    pub status: RepositoryBindingStatus,
    pub created_at: i64,
    pub updated_at: i64,
}

/// The mathematical form of a repository binding.
pub struct BindingView {
    pub repository_binding_id: Seq<char>,
    pub book_id: Seq<char>,
    pub provider: Seq<char>,
    pub repository_url: Seq<char>,
    pub repository_name: Seq<char>,
    pub status: RepositoryBindingStatus,
    pub created_at: i64,
    pub updated_at: i64,
}

impl View for RepositoryBinding {
    type V = BindingView;

    open spec fn view(&self) -> BindingView {
        BindingView {
            repository_binding_id: self.repository_binding_id@,
            book_id: self.book_id@,
            provider: self.provider@,
            repository_url: self.repository_url@,
            repository_name: self.repository_name@,
            status: self.status,
            created_at: self.created_at,
            updated_at: self.updated_at,
        }
    }
}

impl Keyed for RepositoryBinding {
    open spec fn key_view(&self) -> Seq<char> {
        self.repository_binding_id@
    }

    fn key(&self) -> (r: &str) {
        self.repository_binding_id.as_str()
    }
}

impl RepositoryBinding {
    /// A copy of the binding.
    pub fn copy(&self) -> (r: RepositoryBinding)
        ensures
            r@ == self@,
    {
        RepositoryBinding {
            repository_binding_id: self.repository_binding_id.clone(),
            book_id: self.book_id.clone(),
            provider: self.provider.clone(),
            repository_url: self.repository_url.clone(),
            repository_name: self.repository_name.clone(),
            status: self.status,
            created_at: self.created_at,
            updated_at: self.updated_at,
        }
    }
}

/// Why a record could not be changed.
#[derive(Debug, Clone, Copy, PartialEq, Eq, Structural)]
pub enum RepositoryError {
    MissingJob,
}

impl RepositoryError {
    /// The message shown for the error.
    pub fn message(&self) -> (r: &'static str)
        ensures
            r@ == "missing job"@,
    {
        "missing job"
    }
}

/// All records of the service.
#[derive(Debug)]
pub struct Database {
    pub conversations: Vec<Conversation>,
    pub books: Vec<Book>,
    pub sessions: Vec<AuthoringSession>,
    pub jobs: Vec<WritingJob>,
    pub revisions: Vec<Revision>,
    pub repository_bindings: Vec<RepositoryBinding>,
    pub conversation_to_book: Vec<ConversationBook>,
    pub next_id: u64,
}

/// An identifier made from a prefix and a counter value: `<prefix>-<n>`.
pub open spec fn id_text(prefix: Seq<char>, n: nat) -> Seq<char> {
    prefix + "-"@ + decimal(n)
}

/// The book conversation `conversation_id` writes, if it has one.
pub open spec fn book_of(db: Database, conversation_id: Seq<char>) -> Option<BookView> {
    match lookup(db.conversation_to_book@, conversation_id) {
        Some(link) => lookup(db.books@, link.book_id),
        None => None,
    }
}

/// Whether a job status ends the job.
pub open spec fn is_terminal(status: JobStatus) -> bool {
    status == JobStatus::Succeeded || status == JobStatus::Failed || status == JobStatus::TimedOut
        || status == JobStatus::Cancelled
}

/// A job after it moves to `status` at `now`: it is started (once) by any status but
/// `Received`, finished by a terminal status, and takes the message, changed files and
/// failure reason that are given.
pub open spec fn job_after_update(
    j: JobView,
    status: JobStatus,
    message: Option<Seq<char>>,
    changed_files: Option<Seq<Seq<char>>>,
    failure_reason: Option<Seq<char>>,
    now: i64,
) -> JobView {
    JobView {
        status,
        started_at: if status != JobStatus::Received && j.started_at is None {
            Some(now)
        } else {
            j.started_at
        },
        finished_at: if is_terminal(status) {
            Some(now)
        } else {
            j.finished_at
        },
        user_facing_message: match message {
            Some(m) => Some(m),
            None => j.user_facing_message,
        },
        changed_files: match changed_files {
            Some(c) => c,
            None => j.changed_files,
        },
        failure_reason: match failure_reason {
            Some(f) => Some(f),
            None => j.failure_reason,
        },
        ..j
    }
}

/// The order of optional instants: none before any.
pub open spec fn opt_instant_le(a: Option<i64>, b: Option<i64>) -> bool {
    match (a, b) {
        (None, _) => true,
        (Some(_), None) => false,
        (Some(x), Some(y)) => x <= y,
    }
}

impl Database {
    /// Every table has distinct keys.
    pub open spec fn well_formed(&self) -> bool {
        &&& unique_keys(self.conversations@)
        &&& unique_keys(self.books@)
        &&& unique_keys(self.sessions@)
        &&& unique_keys(self.jobs@)
        &&& unique_keys(self.revisions@)
        &&& unique_keys(self.repository_bindings@)
        &&& unique_keys(self.conversation_to_book@)
    }

    /// An empty database.
    pub fn new() -> (r: Database)
        ensures
            r.well_formed(),
            r.conversations@.len() == 0,
            r.books@.len() == 0,
            r.sessions@.len() == 0,
            r.jobs@.len() == 0,
            r.revisions@.len() == 0,
            r.repository_bindings@.len() == 0,
            r.conversation_to_book@.len() == 0,
            r.next_id == 0,
    {
        Database {
            conversations: Vec::new(),
            books: Vec::new(),
            sessions: Vec::new(),
            jobs: Vec::new(),
            revisions: Vec::new(),
            repository_bindings: Vec::new(),
            conversation_to_book: Vec::new(),
            next_id: 0,
        }
    }

    /// Takes the next identifier with `prefix`.
    pub fn next_id(&mut self, prefix: &str) -> (r: String)
        requires
            old(self).next_id < u64::MAX,
        ensures
            final(self).next_id == old(self).next_id + 1,
            r@ == id_text(prefix@, final(self).next_id as nat),
            final(self).conversations@ == old(self).conversations@,
            final(self).books@ == old(self).books@,
            final(self).sessions@ == old(self).sessions@,
            final(self).jobs@ == old(self).jobs@,
            final(self).revisions@ == old(self).revisions@,
            final(self).repository_bindings@ == old(self).repository_bindings@,
            final(self).conversation_to_book@ == old(self).conversation_to_book@,
    {
        self.next_id = self.next_id + 1;
        let mut v = chars_of(prefix);
        push_str(&mut v, "-");
        push_all(&mut v, decimal_u64(self.next_id).as_slice());
        string_of(v.as_slice())
    }

    /// The conversation of a provider chat, created (active, at `now`) when it is new.
    pub fn resolve_or_create_conversation(
        &mut self,
        provider: Provider,
        provider_chat_id: &str,
        title: String,
        now: i64,
    ) -> (r: Conversation)
        requires
            old(self).well_formed(),
        ensures
            final(self).well_formed(),
            final(self).books@ == old(self).books@,
            final(self).sessions@ == old(self).sessions@,
            final(self).jobs@ == old(self).jobs@,
            final(self).revisions@ == old(self).revisions@,
            final(self).repository_bindings@ == old(self).repository_bindings@,
            final(self).conversation_to_book@ == old(self).conversation_to_book@,
            final(self).next_id == old(self).next_id,
            ({
                let key = conversation_key(provider, provider_chat_id@);
                match lookup(old(self).conversations@, key) {
                    Some(c) => r@ == c && final(self).conversations@ == old(self).conversations@,
                    None => {
                        &&& r@ == (ConversationView {
                            conversation_id: key,
                            provider,
                            provider_chat_id: key,
                            title: title@,
                            created_at: now,
                            status: ConversationStatus::Active,
                        })
                        &&& forall|k: Seq<char>|
                            #[trigger] lookup(final(self).conversations@, k) == if k == key {
                                Some(r@)
                            } else {
                                lookup(old(self).conversations@, k)
                            }
                        &&& final(self).conversations@.len() == old(self).conversations@.len() + 1
                    },
                }
            }),
    {
        let key = normalize_conversation_id(&provider, provider_chat_id);
        match position_of_key(&self.conversations, key.as_str()) {
            Some(i) => {
                return self.conversations[i].copy();
            },
            None => {},
        }
        let conversation = Conversation {
            conversation_id: key.clone(),
            provider,
            provider_chat_id: key,
            title,
            created_at: now,
            status: ConversationStatus::Active,
        };
        let result = conversation.copy();
        put(&mut self.conversations, conversation);
        result
    }

    /// The conversation with id `conversation_id`.
    pub fn get_conversation(&self, conversation_id: &str) -> (r: Option<Conversation>)
        requires
            self.well_formed(),
        ensures
            match lookup(self.conversations@, conversation_id@) {
                Some(c) => r matches Some(x) && x@ == c,
                None => r is None,
            },
    {
        match position_of_key(&self.conversations, conversation_id) {
            Some(i) => Some(self.conversations[i].copy()),
            None => None,
        }
    }

    /// The book with id `book_id`.
    pub fn get_book(&self, book_id: &str) -> (r: Option<Book>)
        requires
            self.well_formed(),
        ensures
            match lookup(self.books@, book_id@) {
                Some(b) => r matches Some(x) && x@ == b,
                None => r is None,
            },
    {
        match position_of_key(&self.books, book_id) {
            Some(i) => Some(self.books[i].copy()),
            None => None,
        }
    }

    /// The session with id `session_id`.
    pub fn get_session(&self, session_id: &str) -> (r: Option<AuthoringSession>)
        requires
            self.well_formed(),
        ensures
            match lookup(self.sessions@, session_id@) {
                Some(s) => r matches Some(x) && x@ == s,
                None => r is None,
            },
    {
        match position_of_key(&self.sessions, session_id) {
            Some(i) => Some(self.sessions[i].copy()),
            None => None,
        }
    }

    /// The job with id `job_id`.
    pub fn get_job(&self, job_id: &str) -> (r: Option<WritingJob>)
        requires
            self.well_formed(),
        ensures
            match lookup(self.jobs@, job_id@) {
                Some(j) => r matches Some(x) && x@ == j,
                None => r is None,
            },
    {
        match position_of_key(&self.jobs, job_id) {
            Some(i) => Some(self.jobs[i].copy()),
            None => None,
        }
    }

    /// The revision with id `revision_id`.
    pub fn get_revision(&self, revision_id: &str) -> (r: Option<Revision>)
        requires
            self.well_formed(),
        ensures
            match lookup(self.revisions@, revision_id@) {
                Some(x) => r matches Some(y) && y@ == x,
                None => r is None,
            },
    {
        match position_of_key(&self.revisions, revision_id) {
            Some(i) => Some(self.revisions[i].copy()),
            None => None,
        }
    }

    /// The book conversation `conversation_id` writes, if it has one.
    pub fn find_book_by_conversation(&self, conversation_id: &str) -> (r: Option<Book>)
        requires
            self.well_formed(),
        ensures
            match book_of(*self, conversation_id@) {
                Some(b) => r matches Some(x) && x@ == b,
                None => r is None,
            },
    {
        match position_of_key(&self.conversation_to_book, conversation_id) {
            Some(i) => self.get_book(self.conversation_to_book[i].book_id.as_str()),
            None => None,
        }
    }

    /// The book of a conversation: the one it already writes, or a new active one
    /// (created at `now`) that it is linked to. A conversation never gets a second book.
    pub fn create_book(
        &mut self,
        conversation_id: &str,
        title: String,
        workspace_path: String,
        now: i64,
    ) -> (r: Book)
        requires
            old(self).well_formed(),
            book_of(*old(self), conversation_id@) is None ==> old(self).next_id < u64::MAX,
        ensures
            final(self).well_formed(),
            book_of(*final(self), conversation_id@) == Some(r@),
            final(self).conversations@ == old(self).conversations@,
            final(self).sessions@ == old(self).sessions@,
            final(self).jobs@ == old(self).jobs@,
            final(self).revisions@ == old(self).revisions@,
            final(self).repository_bindings@ == old(self).repository_bindings@,
            match book_of(*old(self), conversation_id@) {
                Some(b) => {
                    &&& r@ == b
                    &&& final(self).books@ == old(self).books@
                    &&& final(self).conversation_to_book@ == old(self).conversation_to_book@
                    &&& final(self).next_id == old(self).next_id
                },
                None => {
                    &&& final(self).next_id == old(self).next_id + 1
                    &&& r@ == (BookView {
                        book_id: id_text("book"@, final(self).next_id as nat),
                        conversation_id: conversation_id@,
                        title: title@,
                        status: BookStatus::Active,
                        workspace_path: workspace_path@,
                        created_at: now,
                        updated_at: now,
                    })
                    &&& forall|k: Seq<char>|
                        #[trigger] lookup(final(self).books@, k) == if k == r@.book_id {
                            Some(r@)
                        } else {
                            lookup(old(self).books@, k)
                        }
                },
            },
    {
        match self.find_book_by_conversation(conversation_id) {
            Some(existing) => {
                return existing;
            },
            None => {},
        }
        let book_id = self.next_id("book");
        let book = Book {
            book_id: book_id.clone(),
            conversation_id: conversation_id.to_string(),
            title,
            status: BookStatus::Active,
            workspace_path,
            created_at: now,
            updated_at: now,
        };
        let result = book.copy();
        let link = ConversationBook { conversation_id: conversation_id.to_string(), book_id };
        put(&mut self.conversation_to_book, link);
        put(&mut self.books, book);
        assert(lookup(self.conversation_to_book@, conversation_id@) matches Some(l) && l.book_id
            == result@.book_id);
        assert(lookup(self.books@, result@.book_id) == Some(result@));
        result
    }

    /// Marks book `book_id` as updated at `now`, if there is such a book.
    pub fn touch_book(&mut self, book_id: &str, now: i64)
        requires
            old(self).well_formed(),
        ensures
            final(self).well_formed(),
            forall|k: Seq<char>|
                #[trigger] lookup(final(self).books@, k) == if k == book_id@ {
                    match lookup(old(self).books@, k) {
                        Some(b) => Some(BookView { updated_at: now, ..b }),
                        None => None,
                    }
                } else {
                    lookup(old(self).books@, k)
                },
            final(self).conversations@ == old(self).conversations@,
            final(self).sessions@ == old(self).sessions@,
            final(self).jobs@ == old(self).jobs@,
            final(self).revisions@ == old(self).revisions@,
            final(self).repository_bindings@ == old(self).repository_bindings@,
            final(self).conversation_to_book@ == old(self).conversation_to_book@,
            final(self).next_id == old(self).next_id,
    {
        match position_of_key(&self.books, book_id) {
            Some(i) => {
                let mut b = self.books[i].copy();
                b.updated_at = now;
                put(&mut self.books, b);
            },
            None => {},
        }
    }

    /// The active session of book `book_id`, or a new active one for it.
    pub fn open_session(
        &mut self,
        conversation_id: &str,
        book_id: &str,
        last_message_at: i64,
    ) -> (r: AuthoringSession)
        requires
            old(self).well_formed(),
            old(self).next_id < u64::MAX,
        ensures
            final(self).well_formed(),
            final(self).conversations@ == old(self).conversations@,
            final(self).books@ == old(self).books@,
            final(self).jobs@ == old(self).jobs@,
            final(self).revisions@ == old(self).revisions@,
            final(self).repository_bindings@ == old(self).repository_bindings@,
            final(self).conversation_to_book@ == old(self).conversation_to_book@,
            (exists|i: int|
                0 <= i < old(self).sessions@.len() && (#[trigger] old(self).sessions@[i]).book_id@
                    == book_id@ && old(self).sessions@[i].status == SessionStatus::Active) ==> {
                &&& exists|i: int|
                    0 <= i < old(self).sessions@.len() && r@ == (#[trigger] old(self).sessions@[i])@
                        && r@.book_id == book_id@ && r@.status == SessionStatus::Active
                &&& final(self).sessions@ == old(self).sessions@
                &&& final(self).next_id == old(self).next_id
            },
            !(exists|i: int|
                0 <= i < old(self).sessions@.len() && (#[trigger] old(self).sessions@[i]).book_id@
                    == book_id@ && old(self).sessions@[i].status == SessionStatus::Active) ==> {
                &&& final(self).next_id == old(self).next_id + 1
                &&& r@ == (SessionView {
                    session_id: id_text("session"@, final(self).next_id as nat),
                    conversation_id: conversation_id@,
                    book_id: book_id@,
                    status: SessionStatus::Active,
                    last_message_at,
                })
                &&& forall|k: Seq<char>|
                    #[trigger] lookup(final(self).sessions@, k) == if k == r@.session_id {
                        Some(r@)
                    } else {
                        lookup(old(self).sessions@, k)
                    }
            },
    {
        let want = chars_of(book_id);
        let mut i: usize = 0;
        while i < self.sessions.len()
            invariant
                i <= self.sessions@.len(),
                want@ == book_id@,
                self.well_formed(),
                forall|q: int|
                    0 <= q < i ==> !((#[trigger] self.sessions@[q]).book_id@ == book_id@
                        && self.sessions@[q].status == SessionStatus::Active),
            decreases self.sessions.len() - i,
        {
            let s = &self.sessions[i];
            if chars_eq(chars_of(s.book_id.as_str()).as_slice(), want.as_slice()) && s.status
                == SessionStatus::Active {
                return s.copy();
            }
            i = i + 1;
        }
        let session_id = self.next_id("session");
        let session = AuthoringSession {
            session_id,
            conversation_id: conversation_id.to_string(),
            book_id: book_id.to_string(),
            status: SessionStatus::Active,
            last_message_at,
        };
        let result = session.copy();
        put(&mut self.sessions, session);
        result
    }

    /// A new job for a message, just received.
    pub fn create_job(
        &mut self,
        book_id: &str,
        conversation_id: &str,
        session_id: &str,
        source_message_id: &str,
        command_kind: CommandKind,
        prompt_snapshot: String,
    ) -> (r: WritingJob)
        requires
            old(self).well_formed(),
            old(self).next_id < u64::MAX,
        ensures
            final(self).well_formed(),
            final(self).next_id == old(self).next_id + 1,
            r@ == (JobView {
                job_id: id_text("job"@, final(self).next_id as nat),
                book_id: book_id@,
                conversation_id: conversation_id@,
                session_id: session_id@,
                source_message_id: source_message_id@,
                status: JobStatus::Received,
                command_kind,
                prompt_snapshot: prompt_snapshot@,
                started_at: None,
                finished_at: None,
                user_facing_message: None,
                changed_files: seq![],
                failure_reason: None,
            }),
            forall|k: Seq<char>|
                #[trigger] lookup(final(self).jobs@, k) == if k == r@.job_id {
                    Some(r@)
                } else {
                    lookup(old(self).jobs@, k)
                },
            final(self).conversations@ == old(self).conversations@,
            final(self).books@ == old(self).books@,
            final(self).sessions@ == old(self).sessions@,
            final(self).revisions@ == old(self).revisions@,
            final(self).repository_bindings@ == old(self).repository_bindings@,
            final(self).conversation_to_book@ == old(self).conversation_to_book@,
    {
        let job_id = self.next_id("job");
        let job = WritingJob {
            job_id,
            book_id: book_id.to_string(),
            conversation_id: conversation_id.to_string(),
            session_id: session_id.to_string(),
            source_message_id: source_message_id.to_string(),
            status: JobStatus::Received,
            command_kind,
            prompt_snapshot,
            started_at: None,
            finished_at: None,
            user_facing_message: None,
            changed_files: Vec::new(),
            failure_reason: None,
        };
        assert(text_views(job.changed_files@) =~= seq![]);
        let result = job.copy();
        put(&mut self.jobs, job);
        result
    }

    /// Moves job `job_id` to `status` at `now` (see `job_after_update`); refused when
    /// there is no such job.
    pub fn update_job_status(
        &mut self,
        job_id: &str,
        status: JobStatus,
        message: Option<String>,
        changed_files: Option<Vec<String>>,
        failure_reason: Option<String>,
        now: i64,
    ) -> (r: Result<WritingJob, RepositoryError>)
        requires
            old(self).well_formed(),
        ensures
            final(self).well_formed(),
            final(self).conversations@ == old(self).conversations@,
            final(self).books@ == old(self).books@,
            final(self).sessions@ == old(self).sessions@,
            final(self).revisions@ == old(self).revisions@,
            final(self).repository_bindings@ == old(self).repository_bindings@,
            final(self).conversation_to_book@ == old(self).conversation_to_book@,
            final(self).next_id == old(self).next_id,
            match lookup(old(self).jobs@, job_id@) {
                None => r matches Err(RepositoryError::MissingJob) && final(self).jobs@ == old(
                    self,
                ).jobs@,
                Some(j) => r matches Ok(x) && {
                    &&& x@ == job_after_update(
                        j,
                        status,
                        crate::models::opt_text(message),
                        match changed_files {
                            Some(c) => Some(text_views(c@)),
                            None => None,
                        },
                        crate::models::opt_text(failure_reason),
                        now,
                    )
                    &&& forall|k: Seq<char>|
                        #[trigger] lookup(final(self).jobs@, k) == if k == job_id@ {
                            Some(x@)
                        } else {
                            lookup(old(self).jobs@, k)
                        }
                },
            },
    {
        let i = match position_of_key(&self.jobs, job_id) {
            Some(i) => i,
            None => {
                return Err(RepositoryError::MissingJob);
            },
        };
        let mut job = self.jobs[i].copy();
        if status != JobStatus::Received && job.started_at.is_none() {
            job.started_at = Some(now);
        }
        if status == JobStatus::Succeeded || status == JobStatus::Failed || status
            == JobStatus::TimedOut || status == JobStatus::Cancelled {
            job.finished_at = Some(now);
        }
        job.status = status;
        match message {
            Some(m) => {
                job.user_facing_message = Some(m);
            },
            None => {},
        }
        match changed_files {
            Some(c) => {
                job.changed_files = c;
            },
            None => {},
        }
        match failure_reason {
            Some(f) => {
                job.failure_reason = Some(f);
            },
            None => {},
        }
        let result = job.copy();
        put(&mut self.jobs, job);
        Ok(result)
    }

    /// A new revision of a book, made at `now`.
    pub fn create_revision(
        &mut self,
        book_id: &str,
        job_id: &str,
        summary: String,
        render_status: RevisionRenderStatus,
        now: i64,
    ) -> (r: Revision)
        requires
            old(self).well_formed(),
            old(self).next_id < u64::MAX,
        ensures
            final(self).well_formed(),
            final(self).next_id == old(self).next_id + 1,
            r@ == (RevisionView {
                revision_id: id_text("revision"@, final(self).next_id as nat),
                book_id: book_id@,
                job_id: job_id@,
                summary: summary@,
                created_at: now,
                render_status,
            }),
            forall|k: Seq<char>|
                #[trigger] lookup(final(self).revisions@, k) == if k == r@.revision_id {
                    Some(r@)
                } else {
                    lookup(old(self).revisions@, k)
                },
            lookup(old(self).revisions@, r@.revision_id) is None ==> final(self).revisions@.len()
                == old(self).revisions@.len() + 1,
            lookup(old(self).revisions@, r@.revision_id) is Some ==> final(self).revisions@.len()
                == old(self).revisions@.len(),
            final(self).conversations@ == old(self).conversations@,
            final(self).books@ == old(self).books@,
            final(self).sessions@ == old(self).sessions@,
            final(self).jobs@ == old(self).jobs@,
            final(self).repository_bindings@ == old(self).repository_bindings@,
            final(self).conversation_to_book@ == old(self).conversation_to_book@,
    {
        let revision_id = self.next_id("revision");
        let revision = Revision {
            revision_id,
            book_id: book_id.to_string(),
            job_id: job_id.to_string(),
            summary,
            created_at: now,
            render_status,
        };
        let result = revision.copy();
        put(&mut self.revisions, revision);
        result
    }

    /// The most recent revision of book `book_id`, if it has any.
    pub fn latest_revision_for_book(&self, book_id: &str) -> (r: Option<Revision>)
        ensures
            match r {
                Some(x) => exists|i: int|
                    0 <= i < self.revisions@.len() && x@ == (#[trigger] self.revisions@[i])@
                        && x@.book_id == book_id@ && forall|k: int|
                        0 <= k < self.revisions@.len() && (#[trigger] self.revisions@[k]).book_id@
                            == book_id@ ==> self.revisions@[k].created_at <= x@.created_at,
                None => forall|k: int|
                    0 <= k < self.revisions@.len() ==> (#[trigger] self.revisions@[k]).book_id@
                        != book_id@,
            },
    {
        let want = chars_of(book_id);
        let mut best: Option<usize> = None;
        let mut i: usize = 0;
        while i < self.revisions.len()
            invariant
                i <= self.revisions@.len(),
                want@ == book_id@,
                match best {
                    Some(b) => b < i && self.revisions@[b as int].book_id@ == book_id@
                        && forall|k: int|
                        0 <= k < i && (#[trigger] self.revisions@[k]).book_id@ == book_id@
                            ==> self.revisions@[k].created_at <= self.revisions@[b as int].created_at,
                    None => forall|k: int|
                        0 <= k < i ==> (#[trigger] self.revisions@[k]).book_id@ != book_id@,
                },
            decreases self.revisions.len() - i,
        {
            let rv = &self.revisions[i];
            if chars_eq(chars_of(rv.book_id.as_str()).as_slice(), want.as_slice()) {
                match best {
                    None => {
                        best = Some(i);
                    },
                    Some(b) => {
                        if self.revisions[b].created_at <= rv.created_at {
                            best = Some(i);
                        }
                    },
                }
            }
            i = i + 1;
        }
        match best {
            Some(b) => Some(self.revisions[b].copy()),
            None => None,
        }
    }

    /// The most recently started job of book `book_id`, if it has any (a job not yet
    /// started counts as earliest).
    pub fn latest_job_for_book(&self, book_id: &str) -> (r: Option<WritingJob>)
        ensures
            match r {
                Some(x) => exists|i: int|
                    0 <= i < self.jobs@.len() && x@ == (#[trigger] self.jobs@[i])@ && x@.book_id
                        == book_id@ && forall|k: int|
                        0 <= k < self.jobs@.len() && (#[trigger] self.jobs@[k]).book_id@
                            == book_id@ ==> opt_instant_le(self.jobs@[k].started_at, x@.started_at),
                None => forall|k: int|
                    0 <= k < self.jobs@.len() ==> (#[trigger] self.jobs@[k]).book_id@ != book_id@,
            },
    {
        let want = chars_of(book_id);
        let mut best: Option<usize> = None;
        let mut i: usize = 0;
        while i < self.jobs.len()
            invariant
                i <= self.jobs@.len(),
                want@ == book_id@,
                match best {
                    Some(b) => b < i && self.jobs@[b as int].book_id@ == book_id@ && forall|k: int|
                        0 <= k < i && (#[trigger] self.jobs@[k]).book_id@ == book_id@
                            ==> opt_instant_le(self.jobs@[k].started_at, self.jobs@[b as int].started_at),
                    None => forall|k: int|
                        0 <= k < i ==> (#[trigger] self.jobs@[k]).book_id@ != book_id@,
                },
            decreases self.jobs.len() - i,
        {
            let jb = &self.jobs[i];
            if chars_eq(chars_of(jb.book_id.as_str()).as_slice(), want.as_slice()) {
                match best {
                    None => {
                        best = Some(i);
                    },
                    Some(b) => {
                        let later = match (self.jobs[b].started_at, jb.started_at) {
                            (None, _) => true,
                            (Some(_), None) => false,
                            (Some(x), Some(y)) => x <= y,
                        };
                        if later {
                            best = Some(i);
                        }
                    },
                }
            }
            i = i + 1;
        }
        match best {
            Some(b) => Some(self.jobs[b].copy()),
            None => None,
        }
    }

    /// The repository binding of book `book_id`, if it has one.
    pub fn get_repository_binding_for_book(&self, book_id: &str) -> (r: Option<RepositoryBinding>)
        ensures
            match r {
                Some(x) => exists|i: int|
                    0 <= i < self.repository_bindings@.len() && x@ == (
                    #[trigger] self.repository_bindings@[i])@ && x@.book_id == book_id@,
                None => forall|k: int|
                    0 <= k < self.repository_bindings@.len() ==> (
                    #[trigger] self.repository_bindings@[k]).book_id@ != book_id@,
            },
    {
        match self.binding_position(book_id) {
            Some(i) => Some(self.repository_bindings[i].copy()),
            None => None,
        }
    }

    fn binding_position(&self, book_id: &str) -> (r: Option<usize>)
        ensures
            match r {
                Some(i) => i < self.repository_bindings@.len()
                    && self.repository_bindings@[i as int].book_id@ == book_id@,
                None => forall|k: int|
                    0 <= k < self.repository_bindings@.len() ==> (
                    #[trigger] self.repository_bindings@[k]).book_id@ != book_id@,
            },
    {
        let want = chars_of(book_id);
        let mut i: usize = 0;
        while i < self.repository_bindings.len()
            invariant
                i <= self.repository_bindings@.len(),
                want@ == book_id@,
                forall|k: int| 0 <= k < i ==> (#[trigger] self.repository_bindings@[k]).book_id@
                    != book_id@,
            decreases self.repository_bindings.len() - i,
        {
            if chars_eq(
                chars_of(self.repository_bindings[i].book_id.as_str()).as_slice(),
                want.as_slice(),
            ) {
                return Some(i);
            }
            i = i + 1;
        }
        None
    }

    /// Links book `book_id` to a repository: its binding is updated at `now`, or a new
    /// one is made.
    pub fn upsert_repository_binding(
        &mut self,
        book_id: &str,
        provider: String,
        repository_url: String,
        repository_name: String,
        status: RepositoryBindingStatus,
        now: i64,
    ) -> (r: RepositoryBinding)
        requires
            old(self).well_formed(),
            (forall|k: int|
                0 <= k < old(self).repository_bindings@.len() ==> (
                #[trigger] old(self).repository_bindings@[k]).book_id@ != book_id@) ==> old(
                self,
            ).next_id < u64::MAX,
        ensures
            final(self).well_formed(),
            final(self).conversations@ == old(self).conversations@,
            final(self).books@ == old(self).books@,
            final(self).sessions@ == old(self).sessions@,
            final(self).jobs@ == old(self).jobs@,
            final(self).revisions@ == old(self).revisions@,
            final(self).conversation_to_book@ == old(self).conversation_to_book@,
            r@.book_id == book_id@,
            r@.provider == provider@,
            r@.repository_url == repository_url@,
            r@.repository_name == repository_name@,
            r@.status == status,
            r@.updated_at == now,
            forall|k: Seq<char>|
                #[trigger] lookup(final(self).repository_bindings@, k) == if k
                    == r@.repository_binding_id {
                    Some(r@)
                } else {
                    lookup(old(self).repository_bindings@, k)
                },
            (exists|i: int|
                0 <= i < old(self).repository_bindings@.len() && (
                #[trigger] old(self).repository_bindings@[i]).book_id@ == book_id@) ==> {
                &&& final(self).next_id == old(self).next_id
                &&& exists|i: int|
                    0 <= i < old(self).repository_bindings@.len() && (
                    #[trigger] old(self).repository_bindings@[i]).book_id@ == book_id@
                        && r@.repository_binding_id
                        == old(self).repository_bindings@[i].repository_binding_id@
                        && r@.created_at == old(self).repository_bindings@[i].created_at
            },
            !(exists|i: int|
                0 <= i < old(self).repository_bindings@.len() && (
                #[trigger] old(self).repository_bindings@[i]).book_id@ == book_id@) ==> {
                &&& final(self).next_id == old(self).next_id + 1
                &&& r@.repository_binding_id == id_text("binding"@, final(self).next_id as nat)
                &&& r@.created_at == now
            },
    {
        match self.binding_position(book_id) {
            Some(i) => {
                let mut b = self.repository_bindings[i].copy();
                b.provider = provider;
                b.repository_url = repository_url;
                b.repository_name = repository_name;
                b.status = status;
                b.updated_at = now;
                let result = b.copy();
                proof {
                    lemma_key_position(
                        self.repository_bindings@,
                        self.repository_bindings@[i as int].key_view(),
                        i as int,
                    );
                }
                put(&mut self.repository_bindings, b);
                result
            },
            None => {
                let id = self.next_id("binding");
                let b = RepositoryBinding {
                    repository_binding_id: id,
                    book_id: book_id.to_string(),
                    provider,
                    repository_url,
                    repository_name,
                    status,
                    created_at: now,
                    updated_at: now,
                };
                let result = b.copy();
                put(&mut self.repository_bindings, b);
                result
            },
        }
    }
}

impl Default for Database {
    fn default() -> (r: Database)
        ensures
            r.well_formed(),
            r.conversations@.len() == 0,
            r.books@.len() == 0,
            r.next_id == 0,
    {
        Database::new()
    }
}

/// A job's lifecycle: a job is started once, by the first status past `Received`, and
/// keeps that start; it is finished exactly when it reaches a terminal status; it always
/// takes the status it is moved to.
pub proof fn law_job_lifecycle(
    j: JobView,
    status: JobStatus,
    message: Option<Seq<char>>,
    changed_files: Option<Seq<Seq<char>>>,
    failure_reason: Option<Seq<char>>,
    now: i64,
)
    ensures
        ({
            let n = job_after_update(j, status, message, changed_files, failure_reason, now);
            &&& n.status == status
            &&& j.started_at is Some ==> n.started_at == j.started_at
            &&& status != JobStatus::Received ==> n.started_at is Some
            &&& status == JobStatus::Received ==> n.started_at == j.started_at
            &&& is_terminal(status) ==> n.finished_at == Some(now)
            &&& !is_terminal(status) ==> n.finished_at == j.finished_at
            &&& n.job_id == j.job_id && n.book_id == j.book_id && n.prompt_snapshot
                == j.prompt_snapshot
        }),
{
}

} // verus!
