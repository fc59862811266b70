//! The conversation registry of a book workspace (`conversations.json`).
//!
//! The registry keeps its conversations ordered by last activity, most recent first; ties
//! keep the order in which the records were added or last changed.
use vstd::prelude::*;

use crate::text::chars_eq;

verus! {

broadcast use vstd::string::group_string_axioms;

/// The registry format version written today.
pub const CONVERSATION_REGISTRY_VERSION: u32 = 1;

/// One conversation of a book.
#[derive(Debug)]
pub struct ConversationRegistryRecord {
    pub conversation_id: String,
    pub book_id: String,
    pub title: String,
    pub session_id: Option<String>,
    pub session_log_path: String,
    pub created_at: i64,
    pub updated_at: i64,
    pub last_active_at: i64,
    pub status: String,
}

/// The conversations of one book.
#[derive(Debug)]
pub struct ConversationRegistry {
    pub version: u32,
    pub book_id: String,
    pub conversations: Vec<ConversationRegistryRecord>,
}

/// The mathematical form of a registry record.
pub struct RecordView {
    pub conversation_id: Seq<char>,
    pub book_id: Seq<char>,
    pub title: Seq<char>,
    pub session_id: Option<Seq<char>>,
    pub session_log_path: Seq<char>,
    pub created_at: i64,
    pub updated_at: i64,
    pub last_active_at: i64,
    pub status: Seq<char>,
}

/// The view of an optional string.
pub open spec fn opt_seq(o: Option<String>) -> Option<Seq<char>> {
    match o {
        Some(s) => Some(s@),
        None => None,
    }
}

impl View for ConversationRegistryRecord {
    type V = RecordView;

    open spec fn view(&self) -> RecordView {
        RecordView {
            conversation_id: self.conversation_id@,
            book_id: self.book_id@,
            title: self.title@,
            session_id: opt_seq(self.session_id),
            session_log_path: self.session_log_path@,
            created_at: self.created_at,
            updated_at: self.updated_at,
            last_active_at: self.last_active_at,
            status: self.status@,
        }
    }
}

/// The views of a vector of records.
pub open spec fn record_views(v: Seq<ConversationRegistryRecord>) -> Seq<RecordView> {
    v.map_values(|r: ConversationRegistryRecord| r@)
}

impl ConversationRegistryRecord {
    /// A copy of the record.
    pub fn copy(&self) -> (r: ConversationRegistryRecord)
        ensures
            r@ == self@,
    {
        ConversationRegistryRecord {
            conversation_id: self.conversation_id.clone(),
            book_id: self.book_id.clone(),
            title: self.title.clone(),
            session_id: match &self.session_id {
                Some(s) => Some(s.clone()),
                None => None,
            },
            session_log_path: self.session_log_path.clone(),
            created_at: self.created_at,
            updated_at: self.updated_at,
            last_active_at: self.last_active_at,
            status: self.status.clone(),
        }
    }
}

/// `s` with `r` placed after every record at least as recently active (stable insertion
/// into a list ordered most recent first).
pub open spec fn insert_by_activity(s: Seq<RecordView>, r: RecordView) -> Seq<RecordView>
    decreases s.len(),
{
    if s.len() == 0 {
        seq![r]
    } else if s.last().last_active_at >= r.last_active_at {
        s.push(r)
    } else {
        insert_by_activity(s.drop_last(), r).push(s.last())
    }
}

/// `s` ordered by last activity, most recent first, ties kept in order (a stable sort).
pub open spec fn sort_by_activity(s: Seq<RecordView>) -> Seq<RecordView>
    decreases s.len(),
{
    if s.len() == 0 {
        s
    } else {
        insert_by_activity(sort_by_activity(s.drop_last()), s.last())
    }
}

/// Records ordered most recently active first.
pub open spec fn is_by_activity(s: Seq<RecordView>) -> bool {
    forall|i: int, j: int| 0 <= i < j < s.len() ==> s[i].last_active_at >= s[j].last_active_at
}

proof fn lemma_insert_split(s: Seq<RecordView>, r: RecordView, j: int)
    requires
        0 <= j <= s.len(),
        j == 0 || s[j - 1].last_active_at >= r.last_active_at,
        forall|k: int| j <= k < s.len() ==> s[k].last_active_at < r.last_active_at,
    ensures
        insert_by_activity(s, r) == s.take(j) + seq![r] + s.skip(j),
    decreases s.len(),
{
    if s.len() == 0 {
        assert(s.take(j) + seq![r] + s.skip(j) =~= seq![r]);
    } else if s.last().last_active_at >= r.last_active_at {
        assert(j == s.len());
        assert(s.take(j) + seq![r] + s.skip(j) =~= s.push(r));
    } else {
        assert(j < s.len());
        let t = s.drop_last();
        lemma_insert_split(t, r, j);
        assert(t.take(j) + seq![r] + t.skip(j) + seq![s.last()] =~= s.take(j) + seq![r] + s.skip(j));
    }
}

proof fn lemma_insert_keeps_order(s: Seq<RecordView>, r: RecordView)
    requires
        is_by_activity(s),
    ensures
        is_by_activity(insert_by_activity(s, r)),
        insert_by_activity(s, r).to_multiset() == s.to_multiset().insert(r),
        insert_by_activity(s, r).len() == s.len() + 1,
    decreases s.len(),
{
    broadcast use vstd::seq_lib::group_to_multiset_ensures;

    if s.len() == 0 {
        assert(seq![r] =~= Seq::<RecordView>::empty().push(r));
    } else if s.last().last_active_at >= r.last_active_at {
    } else {
        let t = s.drop_last();
        lemma_insert_keeps_order(t, r);
        let u = insert_by_activity(t, r);
        assert(s =~= t.push(s.last()));
        assert forall|i: int, j: int| 0 <= i < j < u.len() + 1 implies u.push(
            s.last(),
        )[i].last_active_at >= u.push(s.last())[j].last_active_at by {
            if j == u.len() {
                // every element of u is either r or an element of t, both at least as recent
                if u[i] == r {
                } else {
                    assert(u.to_multiset().count(u[i]) > 0);
                    assert(t.to_multiset().count(u[i]) > 0);
                    assert(t.contains(u[i]));
                    let k = choose|k: int| 0 <= k < t.len() && t[k] == u[i];
                    assert(s[k] == t[k]);
                    assert(s[s.len() - 1] == s.last());
                }
            }
        }
    }
}

proof fn lemma_sort_sorted(s: Seq<RecordView>)
    ensures
        is_by_activity(sort_by_activity(s)),
        sort_by_activity(s).to_multiset() == s.to_multiset(),
        sort_by_activity(s).len() == s.len(),
    decreases s.len(),
{
    broadcast use vstd::seq_lib::group_to_multiset_ensures;

    if s.len() > 0 {
        lemma_sort_sorted(s.drop_last());
        lemma_insert_keeps_order(sort_by_activity(s.drop_last()), s.last());
        assert(s =~= s.drop_last().push(s.last()));
    }
}

/// Sorting by activity orders the records most recent first and keeps every record.
pub proof fn law_sort_orders_and_keeps_records(s: Seq<RecordView>)
    ensures
        is_by_activity(sort_by_activity(s)),
        sort_by_activity(s).to_multiset() == s.to_multiset(),
{
    lemma_sort_sorted(s);
}

/// Orders records by last activity, most recent first, keeping ties in order.
pub fn sort_records(v: Vec<ConversationRegistryRecord>) -> (r: Vec<ConversationRegistryRecord>)
    ensures
        record_views(r@) == sort_by_activity(record_views(v@)),
{
    let ghost src = record_views(v@);
    let mut out: Vec<ConversationRegistryRecord> = Vec::new();
    let mut rest = v;
    let ghost n = src.len();
    assert(record_views(rest@) =~= src.skip(0));
    while rest.len() > 0
        invariant
            n == src.len(),
            record_views(rest@) == src.skip((n - rest@.len()) as int),
            rest@.len() <= n,
            record_views(out@) == sort_by_activity(src.take((n - rest@.len()) as int)),
            is_by_activity(record_views(out@)),
        decreases rest.len(),
    {
        let ghost done = (n - rest@.len()) as int;
        let ghost old_rest = record_views(rest@);
        let ghost old_vec = rest@;
        let r = rest.remove(0);
        proof {
            assert(rest@ == old_vec.remove(0));
            assert(old_rest[0] == r@);
            assert(record_views(rest@) =~= old_rest.skip(1));
            assert(src.skip(done)[0] == src[done]);
            assert(record_views(rest@) =~= src.skip(done + 1));
            assert(src.take(done + 1).drop_last() =~= src.take(done));
            assert(src.take(done + 1).last() == src[done]);
        }
        let ghost before = record_views(out@);
        let mut j = out.len();
        while j > 0 && out[j - 1].last_active_at < r.last_active_at
            invariant
                j <= out.len(),
                record_views(out@) == before,
                before.len() == out@.len(),
                forall|k: int| j <= k < before.len() ==> before[k].last_active_at < r.last_active_at,
            decreases j,
        {
            assert(before[j - 1] == out@[j - 1]@);
            j = j - 1;
        }
        proof {
            if j > 0 {
                assert(before[j - 1] == out@[j - 1]@);
            }
            lemma_insert_split(before, r@, j as int);
            lemma_insert_keeps_order(before, r@);
        }
        out.insert(j, r);
        assert(record_views(out@) =~= before.take(j as int) + seq![r@] + before.skip(j as int));
    }
    assert(src.take(n as int) =~= src);
    out
}

/// The first position of conversation `id` in `s`.
pub open spec fn find_record(s: Seq<RecordView>, id: Seq<char>) -> Option<int>
    decreases s.len(),
{
    if s.len() == 0 {
        None
    } else {
        match find_record(s.drop_last(), id) {
            Some(i) => Some(i),
            None => if s.last().conversation_id == id {
                Some(s.len() - 1)
            } else {
                None
            },
        }
    }
}

pub proof fn lemma_find_record(s: Seq<RecordView>, id: Seq<char>)
    ensures
        find_record(s, id) matches Some(i) ==> 0 <= i < s.len() && s[i].conversation_id == id,
        find_record(s, id) is None ==> forall|k: int|
            0 <= k < s.len() ==> s[k].conversation_id != id,
    decreases s.len(),
{
    if s.len() > 0 {
        lemma_find_record(s.drop_last(), id);
        if find_record(s, id) is None {
            assert forall|k: int| 0 <= k < s.len() implies s[k].conversation_id != id by {
                if k < s.len() - 1 {
                    assert(s.drop_last()[k] == s[k]);
                }
            }
        }
    }
}

proof fn lemma_find_record_prefix(s: Seq<RecordView>, id: Seq<char>, j: int)
    requires
        0 <= j <= s.len(),
        find_record(s.take(j), id) is Some,
    ensures
        find_record(s, id) == find_record(s.take(j), id),
    decreases s.len(),
{
    if j < s.len() {
        assert(s.drop_last().take(j) =~= s.take(j));
        lemma_find_record_prefix(s.drop_last(), id, j);
    } else {
        assert(s.take(j) =~= s);
    }
}

/// Position of conversation `id` in the records.
pub fn position_of(v: &Vec<ConversationRegistryRecord>, id: &str) -> (r: Option<usize>)
    ensures
        match r {
            Some(i) => find_record(record_views(v@), id@) == Some(i as int) && i < v.len(),
            None => find_record(record_views(v@), id@) is None,
        },
{
    let ghost s = record_views(v@);
    let idv = crate::text::chars_of(id);
    let mut i: usize = 0;
    while i < v.len()
        invariant
            i <= v.len(),
            s == record_views(v@),
            s.len() == v@.len(),
            idv@ == id@,
            find_record(s.take(i as int), id@) is None,
        decreases v.len() - i,
    {
        let c = crate::text::chars_of(v[i].conversation_id.as_str());
        assert(s.take(i + 1).drop_last() =~= s.take(i as int));
        assert(s.take(i + 1).last() == v@[i as int]@);
        if chars_eq(c.as_slice(), idv.as_slice()) {
            proof {
                lemma_find_record_prefix(s, id@, i + 1);
            }
            return Some(i);
        }
        i = i + 1;
    }
    assert(s.take(v.len() as int) =~= s);
    None
}

/// Why a registry change was refused.
#[derive(Debug, Clone, PartialEq, Eq)]
pub enum ConversationRegistryError {
    DuplicateConversation { conversation_id: String },
    ConversationNotFound { conversation_id: String },
}

/// Whether any record already has conversation id `id`.
pub open spec fn has_conversation(s: Seq<RecordView>, id: Seq<char>) -> bool {
    exists|k: int| 0 <= k < s.len() && (#[trigger] s[k]).conversation_id == id
}

/// Adds a conversation to the registry, unless its id is already there, and keeps the
/// registry ordered by activity.
pub fn append_conversation_record(
    registry: &mut ConversationRegistry,
    record: ConversationRegistryRecord,
) -> (r: Result<ConversationRegistryRecord, ConversationRegistryError>)
    ensures
        has_conversation(record_views(old(registry).conversations@), record.conversation_id@) ==> {
            &&& r matches Err(ConversationRegistryError::DuplicateConversation { conversation_id })
                && conversation_id@ == record.conversation_id@
            &&& record_views(final(registry).conversations@) == record_views(
                old(registry).conversations@,
            )
        },
        !has_conversation(record_views(old(registry).conversations@), record.conversation_id@)
            ==> {
            &&& r matches Ok(saved) && saved@ == record@
            &&& record_views(final(registry).conversations@) == sort_by_activity(
                record_views(old(registry).conversations@).push(record@),
            )
        },
        final(registry).version == old(registry).version,
        final(registry).book_id == old(registry).book_id,
{
    let ghost s = record_views(registry.conversations@);
    proof {
        lemma_find_record(s, record.conversation_id@);
    }
    match position_of(&registry.conversations, record.conversation_id.as_str()) {
        Some(i) => {
            return Err(
                ConversationRegistryError::DuplicateConversation {
                    conversation_id: record.conversation_id,
                },
            );
        },
        None => {},
    }
    let saved = record.copy();
    let mut all: Vec<ConversationRegistryRecord> = Vec::new();
    std::mem::swap(&mut all, &mut registry.conversations);
    all.push(record);
    assert(record_views(all@) =~= s.push(saved@));
    registry.conversations = sort_records(all);
    Ok(saved)
}


/// The larger of two instants.
pub open spec fn later(a: i64, b: i64) -> i64 {
    if b > a {
        b
    } else {
        a
    }
}

/// A record after activity at `at`, when there was any: its update and activity instants
/// move forward to `at`, never back.
pub open spec fn bump_activity(r: RecordView, at: Option<i64>) -> RecordView {
    match at {
        Some(a) => RecordView {
            updated_at: later(r.updated_at, a),
            last_active_at: later(r.last_active_at, a),
            ..r
        },
        None => r,
    }
}

/// A record with a new status.
pub open spec fn with_status(r: RecordView, status: Seq<char>, at: Option<i64>) -> RecordView {
    bump_activity(RecordView { status: status, ..r }, at)
}

/// A record with the agent session it runs in.
pub open spec fn with_session(
    r: RecordView,
    session_id: Seq<char>,
    session_log_path: Seq<char>,
    status: Seq<char>,
    at: Option<i64>,
) -> RecordView {
    bump_activity(
        RecordView {
            session_id: Some(session_id),
            session_log_path: session_log_path,
            status: status,
            ..r
        },
        at,
    )
}

/// A record with a new title; a changed title moves the update instant forward to `now`.
pub open spec fn with_title(r: RecordView, title: Seq<char>, now: i64) -> RecordView {
    if r.title != title {
        RecordView { title: title, updated_at: later(r.updated_at, now), ..r }
    } else {
        r
    }
}

/// The outcome of changing conversation `id` with `f`: refused when there is no such
/// conversation, otherwise the changed record, with the registry re-ordered by activity.
pub open spec fn mutation_outcome(
    before: Seq<RecordView>,
    after: Seq<RecordView>,
    id: Seq<char>,
    r: Result<ConversationRegistryRecord, ConversationRegistryError>,
    f: spec_fn(RecordView) -> RecordView,
) -> bool {
    match find_record(before, id) {
        None => {
            &&& r matches Err(ConversationRegistryError::ConversationNotFound { conversation_id })
                && conversation_id@ == id
            &&& after == before
        },
        Some(i) => {
            &&& r matches Ok(changed) && changed@ == f(before[i])
            &&& after == sort_by_activity(before.update(i, f(before[i])))
        },
    }
}

fn replace_and_sort(
    registry: &mut ConversationRegistry,
    i: usize,
    changed: ConversationRegistryRecord,
) -> (r: ConversationRegistryRecord)
    requires
        i < old(registry).conversations.len(),
    ensures
        r@ == changed@,
        record_views(final(registry).conversations@) == sort_by_activity(
            record_views(old(registry).conversations@).update(i as int, changed@),
        ),
        final(registry).version == old(registry).version,
        final(registry).book_id == old(registry).book_id,
{
    let saved = changed.copy();
    let mut all: Vec<ConversationRegistryRecord> = Vec::new();
    std::mem::swap(&mut all, &mut registry.conversations);
    let ghost before = record_views(all@);
    all.remove(i);
    all.insert(i, changed);
    assert(record_views(all@) =~= before.update(i as int, saved@));
    registry.conversations = sort_records(all);
    saved
}

fn bump(r: &mut ConversationRegistryRecord, at: Option<i64>)
    ensures
        final(r)@ == bump_activity(old(r)@, at),
{
    match at {
        Some(a) => {
            if a > r.updated_at {
                r.updated_at = a;
            }
            if a > r.last_active_at {
                r.last_active_at = a;
            }
        },
        None => {},
    }
}

/// Sets the status of a conversation, moving its activity forward to `activity_at` if given.
pub fn update_conversation_status(
    registry: &mut ConversationRegistry,
    conversation_id: &str,
    status: &str,
    activity_at: Option<i64>,
) -> (r: Result<ConversationRegistryRecord, ConversationRegistryError>)
    ensures
        mutation_outcome(
            record_views(old(registry).conversations@),
            record_views(final(registry).conversations@),
            conversation_id@,
            r,
            |v: RecordView| with_status(v, status@, activity_at),
        ),
{
    proof {
        lemma_find_record(record_views(registry.conversations@), conversation_id@);
    }
    let i = match position_of(&registry.conversations, conversation_id) {
        Some(i) => i,
        None => {
            return Err(
                ConversationRegistryError::ConversationNotFound {
                    conversation_id: conversation_id.to_string(),
                },
            );
        },
    };
    assert(record_views(registry.conversations@)[i as int] == registry.conversations@[i as int]@);
    let mut changed = registry.conversations[i].copy();
    changed.status = status.to_string();
    bump(&mut changed, activity_at);
    Ok(replace_and_sort(registry, i, changed))
}

/// Records the agent session of a conversation and its new status, moving its activity
/// forward to `activity_at` if given.
pub fn attach_conversation_session(
    registry: &mut ConversationRegistry,
    conversation_id: &str,
    session_id: &str,
    session_log_path: &str,
    status: &str,
    activity_at: Option<i64>,
) -> (r: Result<ConversationRegistryRecord, ConversationRegistryError>)
    ensures
        mutation_outcome(
            record_views(old(registry).conversations@),
            record_views(final(registry).conversations@),
            conversation_id@,
            r,
            |v: RecordView| with_session(v, session_id@, session_log_path@, status@, activity_at),
        ),
{
    proof {
        lemma_find_record(record_views(registry.conversations@), conversation_id@);
    }
    let i = match position_of(&registry.conversations, conversation_id) {
        Some(i) => i,
        None => {
            return Err(
                ConversationRegistryError::ConversationNotFound {
                    conversation_id: conversation_id.to_string(),
                },
            );
        },
    };
    assert(record_views(registry.conversations@)[i as int] == registry.conversations@[i as int]@);
    let mut changed = registry.conversations[i].copy();
    changed.session_id = Some(session_id.to_string());
    changed.session_log_path = session_log_path.to_string();
    changed.status = status.to_string();
    bump(&mut changed, activity_at);
    Ok(replace_and_sort(registry, i, changed))
}

/// Renames a conversation; a real change moves its update instant forward to `now`.
pub fn set_conversation_title(
    registry: &mut ConversationRegistry,
    conversation_id: &str,
    title: &str,
    now: i64,
) -> (r: Result<ConversationRegistryRecord, ConversationRegistryError>)
    ensures
        mutation_outcome(
            record_views(old(registry).conversations@),
            record_views(final(registry).conversations@),
            conversation_id@,
            r,
            |v: RecordView| with_title(v, title@, now),
        ),
{
    proof {
        lemma_find_record(record_views(registry.conversations@), conversation_id@);
    }
    let i = match position_of(&registry.conversations, conversation_id) {
        Some(i) => i,
        None => {
            return Err(
                ConversationRegistryError::ConversationNotFound {
                    conversation_id: conversation_id.to_string(),
                },
            );
        },
    };
    assert(record_views(registry.conversations@)[i as int] == registry.conversations@[i as int]@);
    let mut changed = registry.conversations[i].copy();
    let cur = crate::text::chars_of(changed.title.as_str());
    let new = crate::text::chars_of(title);
    if !chars_eq(cur.as_slice(), new.as_slice()) {
        changed.title = title.to_string();
        if now > changed.updated_at {
            changed.updated_at = now;
        }
    }
    Ok(replace_and_sort(registry, i, changed))
}

/// Moves a conversation's activity forward to `activity_at`.
pub fn update_conversation_activity(
    registry: &mut ConversationRegistry,
    conversation_id: &str,
    activity_at: i64,
) -> (r: Result<ConversationRegistryRecord, ConversationRegistryError>)
    ensures
        mutation_outcome(
            record_views(old(registry).conversations@),
            record_views(final(registry).conversations@),
            conversation_id@,
            r,
            |v: RecordView| bump_activity(v, Some(activity_at)),
        ),
{
    proof {
        lemma_find_record(record_views(registry.conversations@), conversation_id@);
    }
    let i = match position_of(&registry.conversations, conversation_id) {
        Some(i) => i,
        None => {
            return Err(
                ConversationRegistryError::ConversationNotFound {
                    conversation_id: conversation_id.to_string(),
                },
            );
        },
    };
    assert(record_views(registry.conversations@)[i as int] == registry.conversations@[i as int]@);
    let mut changed = registry.conversations[i].copy();
    bump(&mut changed, Some(activity_at));
    Ok(replace_and_sort(registry, i, changed))
}

/// Records that the author sent a prompt in a conversation at `activity_at`.
pub fn mark_conversation_prompt_activity(
    registry: &mut ConversationRegistry,
    conversation_id: &str,
    activity_at: i64,
) -> (r: Result<ConversationRegistryRecord, ConversationRegistryError>)
    ensures
        mutation_outcome(
            record_views(old(registry).conversations@),
            record_views(final(registry).conversations@),
            conversation_id@,
            r,
            |v: RecordView| bump_activity(v, Some(activity_at)),
        ),
{
    update_conversation_activity(registry, conversation_id, activity_at)
}

/// Records that a conversation transcript showed a message at `activity_at`.
pub fn mark_conversation_message_activity(
    registry: &mut ConversationRegistry,
    conversation_id: &str,
    activity_at: i64,
) -> (r: Result<ConversationRegistryRecord, ConversationRegistryError>)
    ensures
        mutation_outcome(
            record_views(old(registry).conversations@),
            record_views(final(registry).conversations@),
            conversation_id@,
            r,
            |v: RecordView| bump_activity(v, Some(activity_at)),
        ),
{
    update_conversation_activity(registry, conversation_id, activity_at)
}

/// Copies of the registry's conversations, most recently active first.
pub fn list_conversation_records(registry: &ConversationRegistry) -> (r: Vec<
    ConversationRegistryRecord,
>)
    ensures
        record_views(r@) == sort_by_activity(record_views(registry.conversations@)),
{
    let mut copies: Vec<ConversationRegistryRecord> = Vec::new();
    let mut i: usize = 0;
    while i < registry.conversations.len()
        invariant
            i <= registry.conversations.len(),
            record_views(copies@) == record_views(registry.conversations@).take(i as int),
        decreases registry.conversations.len() - i,
    {
        let c = registry.conversations[i].copy();
        let ghost old_views = record_views(copies@);
        copies.push(c);
        assert(record_views(copies@) =~= old_views.push(c@));
        assert(record_views(registry.conversations@)[i as int] == registry.conversations@[i as int]@);
        i = i + 1;
        assert(record_views(copies@) =~= record_views(registry.conversations@).take(i as int));
    }
    assert(record_views(registry.conversations@).take(i as int) =~= record_views(
        registry.conversations@,
    ));
    sort_records(copies)
}

/// A fresh registry for a book, with no conversations.
pub fn initialize_conversation_registry(book_id: &str) -> (r: ConversationRegistry)
    ensures
        r.version == CONVERSATION_REGISTRY_VERSION,
        r.book_id@ == book_id@,
        r.conversations@.len() == 0,
{
    ConversationRegistry {
        version: CONVERSATION_REGISTRY_VERSION,
        book_id: book_id.to_string(),
        conversations: Vec::new(),
    }
}

/// Marking activity keeps the conversation and moves its last activity to at least the
/// marked instant, and the registry stays ordered most recent first with the same number of
/// conversations.
pub proof fn law_activity_moves_forward(before: Seq<RecordView>, id: Seq<char>, at: i64)
    requires
        find_record(before, id) is Some,
    ensures
        ({
            let i = find_record(before, id)->0;
            let after = sort_by_activity(before.update(i, bump_activity(before[i], Some(at))));
            &&& is_by_activity(after)
            &&& after.len() == before.len()
            &&& bump_activity(before[i], Some(at)).last_active_at >= at
            &&& after.contains(bump_activity(before[i], Some(at)))
        }),
{
    broadcast use vstd::seq_lib::group_to_multiset_ensures;

    let i = find_record(before, id)->0;
    lemma_find_record(before, id);
    let changed = before.update(i, bump_activity(before[i], Some(at)));
    lemma_sort_sorted(changed);
    assert(changed[i] == bump_activity(before[i], Some(at)));
    assert(changed.to_multiset().count(changed[i]) > 0);
}

} // verus!
