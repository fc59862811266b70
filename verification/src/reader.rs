//! The reader API's own logic: which chapter a content request asks for, chapter cursors,
//! and how image URLs in rendered HTML are pointed at the reader's asset endpoint.
use vstd::prelude::*;

use crate::html::{escape_html_attr, escape_html_attr_spec};
use crate::links::{first_index_of, base64_url_text, json_string_text};
use crate::books::BookWorkspace;
use crate::database::{Book, BookView, Revision, RevisionView};
use crate::models::{BookStatus, ReaderContentResponse, RevisionRenderStatus};
use crate::render::RenderedBook;
use crate::text::{
    chars_eq, chars_of, decimal, decimal_u64, push_all, push_str, slice_range, string_of,
};

verus! {

broadcast use vstd::string::group_string_axioms;

/// The query of a content request.
#[derive(Debug, Clone)]
pub struct ContentQuery {
    pub cursor: Option<String>,
    pub chapter_id: Option<String>,
    pub revision_id: Option<String>,
}

/// A position in a rendered book: a chapter of one revision.
#[derive(Debug, Clone)]
pub struct ChapterCursor {
    pub revision_id: String,
    pub chapter_index: usize,
}

/// Whether `m` occurs in `s` at position `i`.
pub open spec fn occurs_at(s: Seq<char>, m: Seq<char>, i: int) -> bool {
    0 <= i && i + m.len() <= s.len() && s.subrange(i, i + m.len()) == m
}

/// The first position where `m` occurs in `s` (`str::find`).
pub open spec fn find_text(s: Seq<char>, m: Seq<char>) -> Option<int> {
    if exists|i: int| occurs_at(s, m, i) {
        Some(
            choose|i: int| occurs_at(s, m, i) && forall|k: int| 0 <= k < i ==> !occurs_at(s, m, k),
        )
    } else {
        None
    }
}

proof fn lemma_find_text_first(s: Seq<char>, m: Seq<char>, i: int)
    requires
        occurs_at(s, m, i),
        forall|k: int| 0 <= k < i ==> !occurs_at(s, m, k),
    ensures
        find_text(s, m) == Some(i),
{
    let j = choose|j: int| occurs_at(s, m, j) && forall|k: int| 0 <= k < j ==> !occurs_at(s, m, k);
    assert(occurs_at(s, m, j) && forall|k: int| 0 <= k < j ==> !occurs_at(s, m, k));
    if j < i {
        assert(!occurs_at(s, m, j));
    } else if j > i {
        assert(!occurs_at(s, m, i));
    }
}

pub proof fn lemma_find_text_found(s: Seq<char>, m: Seq<char>)
    ensures
        find_text(s, m) matches Some(i) ==> occurs_at(s, m, i) && forall|k: int|
            0 <= k < i ==> !occurs_at(s, m, k),
{
    if exists|i: int| occurs_at(s, m, i) {
        let w = choose|i: int| occurs_at(s, m, i);
        lemma_least_occurrence(s, m, w);
    }
}

proof fn lemma_least_occurrence(s: Seq<char>, m: Seq<char>, w: int)
    requires
        occurs_at(s, m, w),
    ensures
        exists|i: int| occurs_at(s, m, i) && forall|k: int| 0 <= k < i ==> !occurs_at(s, m, k),
    decreases w,
{
    if exists|k: int| 0 <= k < w && occurs_at(s, m, k) {
        let k = choose|k: int| 0 <= k < w && occurs_at(s, m, k);
        lemma_least_occurrence(s, m, k);
    } else {
        assert(occurs_at(s, m, w) && forall|k: int| 0 <= k < w ==> !occurs_at(s, m, k));
    }
}

proof fn lemma_occurs_skip(s: Seq<char>, m: Seq<char>, p: int, i: int)
    requires
        0 <= p <= s.len(),
    ensures
        occurs_at(s.skip(p), m, i) == (i >= 0 && occurs_at(s, m, i + p)),
{
    if 0 <= i && i + m.len() <= s.len() - p {
        assert(s.skip(p).subrange(i, i + m.len()) =~= s.subrange(i + p, i + p + m.len()));
    }
}

#[verifier::opaque]
/// `html` with every `src=` attribute quoted with `quote` that starts with `marker`'s
/// path pointed at `replacement` instead; the rest of each attribute value is kept.
pub open spec fn rewrite_spec(
    s: Seq<char>,
    marker: Seq<char>,
    replacement: Seq<char>,
    quote: char,
) -> Seq<char>
    decreases s.len(),
{
    if marker.len() == 0 {
        s
    } else {
        match find_text(s, marker) {
            None => s,
            Some(i) => {
                proof {
                    lemma_find_text_found(s, marker);
                }
                let after = s.skip(i + marker.len());
                match first_index_of(after, quote) {
                    None => s.take(i) + replacement + after,
                    Some(j) => {
                        proof {
                            lemma_first_index_found(after, quote);
                        }
                        s.take(i) + replacement + after.take(j) + seq![quote] + rewrite_spec(
                            after.skip(j + 1),
                            marker,
                            replacement,
                            quote,
                        )
                    },
                }
            },
        }
    }
}

pub proof fn lemma_first_index_found(s: Seq<char>, c: char)
    ensures
        first_index_of(s, c) matches Some(i) ==> 0 <= i < s.len() && s[i] == c && forall|k: int|
            0 <= k < i ==> s[k] != c,
{
    if exists|i: int| 0 <= i < s.len() && s[i] == c {
        let w = choose|i: int| 0 <= i < s.len() && s[i] == c;
        lemma_least_index(s, c, w);
    }
}

proof fn lemma_least_index(s: Seq<char>, c: char, w: int)
    requires
        0 <= w < s.len(),
        s[w] == c,
    ensures
        exists|i: int| 0 <= i < s.len() && s[i] == c && forall|k: int| 0 <= k < i ==> s[k] != c,
    decreases w,
{
    if exists|k: int| 0 <= k < w && s[k] == c {
        let k = choose|k: int| 0 <= k < w && s[k] == c;
        lemma_least_index(s, c, k);
    } else {
        assert(0 <= w < s.len() && s[w] == c && forall|k: int| 0 <= k < w ==> s[k] != c);
    }
}

fn matches_at(s: &[char], k: usize, m: &[char]) -> (r: bool)
    requires
        k + m@.len() <= s@.len(),
    ensures
        r == occurs_at(s@, m@, k as int),
{
    let n = s.len();
    let mut i: usize = 0;
    while i < m.len()
        invariant
            i <= m@.len(),
            n == s@.len(),
            k + m@.len() <= s@.len(),
            forall|q: int| 0 <= q < i ==> s@[k + q] == m@[q],
        decreases m.len() - i,
    {
        if s[k + i] != m[i] {
            assert(s@.subrange(k as int, k + m@.len())[i as int] != m@[i as int]);
            return false;
        }
        i = i + 1;
    }
    assert(s@.subrange(k as int, k + m@.len()) =~= m@);
    true
}

fn find_from(s: &[char], from: usize, m: &[char]) -> (r: Option<usize>)
    requires
        from <= s@.len(),
        m@.len() > 0,
    ensures
        match r {
            Some(k) => from <= k && find_text(s@.skip(from as int), m@) == Some(k - from),
            None => find_text(s@.skip(from as int), m@) is None,
        },
{
    if m.len() > s.len() {
        proof {
            assert forall|q: int| !occurs_at(s@.skip(from as int), m@, q) by {}
        }
        return None;
    }
    let n = s.len();
    let last = n - m.len();
    let mut k = from;
    while k <= last
        invariant
            from <= k,
            n == s@.len(),
            m@.len() > 0,
            last + m@.len() == s@.len(),
            from <= s@.len(),
            forall|q: int| from <= q < k ==> !occurs_at(s@, m@, q),
        decreases last + 1 - k,
    {
        if matches_at(s, k, m) {
            proof {
                lemma_occurs_skip(s@, m@, from as int, k - from);
                assert forall|q: int| 0 <= q < k - from implies !occurs_at(
                    s@.skip(from as int),
                    m@,
                    q,
                ) by {
                    lemma_occurs_skip(s@, m@, from as int, q);
                }
                lemma_find_text_first(s@.skip(from as int), m@, k - from);
            }
            return Some(k);
        }
        k = k + 1;
    }
    proof {
        assert forall|q: int| !occurs_at(s@.skip(from as int), m@, q) by {
            lemma_occurs_skip(s@, m@, from as int, q);
        }
    }
    None
}

fn find_char_from(s: &[char], from: usize, c: char) -> (r: Option<usize>)
    requires
        from <= s@.len(),
    ensures
        match r {
            Some(k) => from <= k < s@.len() && first_index_of(s@.skip(from as int), c) == Some(
                k - from,
            ),
            None => first_index_of(s@.skip(from as int), c) is None,
        },
{
    let mut k = from;
    while k < s.len()
        invariant
            from <= k <= s@.len(),
            forall|q: int| from <= q < k ==> s@[q] != c,
        decreases s.len() - k,
    {
        if s[k] == c {
            proof {
                let t = s@.skip(from as int);
                assert(t[k - from] == c);
                assert forall|q: int| 0 <= q < k - from implies t[q] != c by {
                    assert(t[q] == s@[q + from]);
                }
                lemma_first_index_at(t, c, k - from);
            }
            return Some(k);
        }
        k = k + 1;
    }
    proof {
        let t = s@.skip(from as int);
        assert forall|q: int| 0 <= q < t.len() implies t[q] != c by {
            assert(t[q] == s@[q + from]);
        }
    }
    None
}

proof fn lemma_first_index_at(s: Seq<char>, c: char, i: int)
    requires
        0 <= i < s.len(),
        s[i] == c,
        forall|k: int| 0 <= k < i ==> s[k] != c,
    ensures
        first_index_of(s, c) == Some(i),
{
    lemma_first_index_found(s, c);
    let j = first_index_of(s, c)->0;
    if j < i {
        assert(s[j] != c);
    } else if j > i {
        assert(s[i] != c);
    }
}


proof fn lemma_rewrite_empty(m: Seq<char>, rp: Seq<char>, quote: char)
    requires
        m.len() > 0,
    ensures
        rewrite_spec(Seq::<char>::empty(), m, rp, quote) == Seq::<char>::empty(),
{
    reveal(rewrite_spec);
    lemma_find_text_found(Seq::<char>::empty(), m);
}

proof fn lemma_rewrite_none(s: Seq<char>, m: Seq<char>, rp: Seq<char>, quote: char)
    requires
        m.len() > 0,
        find_text(s, m) is None,
    ensures
        rewrite_spec(s, m, rp, quote) == s,
{
    reveal(rewrite_spec);
}

proof fn lemma_rewrite_unclosed(s: Seq<char>, m: Seq<char>, rp: Seq<char>, quote: char, i: int)
    requires
        m.len() > 0,
        find_text(s, m) == Some(i),
        first_index_of(s.skip(i + m.len()), quote) is None,
    ensures
        rewrite_spec(s, m, rp, quote) == s.take(i) + rp + s.skip(i + m.len()),
{
    reveal(rewrite_spec);
}

proof fn lemma_rewrite_closed(
    s: Seq<char>,
    m: Seq<char>,
    rp: Seq<char>,
    quote: char,
    i: int,
    j: int,
)
    requires
        m.len() > 0,
        find_text(s, m) == Some(i),
        first_index_of(s.skip(i + m.len()), quote) == Some(j),
    ensures
        rewrite_spec(s, m, rp, quote) == s.take(i) + rp + s.skip(i + m.len()).take(j) + seq![quote]
            + rewrite_spec(s.skip(i + m.len()).skip(j + 1), m, rp, quote),
{
    reveal(rewrite_spec);
}

proof fn lemma_chapter_position(b: RenderedBook, id: Seq<char>, i: int)
    requires
        0 <= i < b.chapters@.len(),
        b.chapters@[i].id@ == id,
        forall|k: int| 0 <= k < i ==> b.chapters@[k].id@ != id,
    ensures
        chapter_position(b, id) == Some(i),
{
    let j = choose|j: int|
        0 <= j < b.chapters@.len() && b.chapters@[j].id@ == id && forall|k: int|
            0 <= k < j ==> b.chapters@[k].id@ != id;
    assert(0 <= j < b.chapters@.len() && b.chapters@[j].id@ == id && forall|k: int|
        0 <= k < j ==> b.chapters@[k].id@ != id);
    if j < i {
        assert(b.chapters@[j].id@ != id);
    } else if j > i {
        assert(b.chapters@[i].id@ != id);
    }
}

/// Whether `m` (not empty) occurs anywhere in `s`.
pub fn find_from_start(s: &[char], m: &[char]) -> (r: bool)
    requires
        m@.len() > 0,
    ensures
        r == (find_text(s@, m@) is Some),
{
    let found = find_from(s, 0, m);
    assert(s@.skip(0) =~= s@);
    found.is_some()
}

/// The `src=` prefix that marks a workspace image, with the given quote and with or
/// without a leading slash.
pub open spec fn asset_marker(quote: char, leading_slash: bool) -> Seq<char> {
    if leading_slash {
        "src="@ + seq![quote] + "/assets/images/"@
    } else {
        "src="@ + seq![quote] + "assets/images/"@
    }
}

/// The `src=` prefix that points into a book's reader assets.
pub open spec fn asset_replacement(quote: char, book_id: Seq<char>) -> Seq<char> {
    "src="@ + seq![quote] + "/api/reader/"@ + escape_html_attr_spec(book_id)
        + "/assets/assets/images/"@
}

/// Points the workspace image URLs quoted with `quote` (with or without a leading slash)
/// at book `book_id`'s reader asset endpoint.
#[verifier::rlimit(60)]
pub fn rewrite_reader_asset_urls_for_quote(
    html: &str,
    book_id: &str,
    quote: char,
    leading_slash: bool,
) -> (r: String)
    ensures
        r@ == rewrite_spec(
            html@,
            asset_marker(quote, leading_slash),
            asset_replacement(quote, book_id@),
            quote,
        ),
{
    let mut marker = chars_of("src=");
    marker.push(quote);
    if leading_slash {
        push_str(&mut marker, "/assets/images/");
    } else {
        push_str(&mut marker, "assets/images/");
    }
    let mut replacement = chars_of("src=");
    replacement.push(quote);
    push_str(&mut replacement, "/api/reader/");
    push_all(&mut replacement, chars_of(escape_html_attr(book_id).as_str()).as_slice());
    push_str(&mut replacement, "/assets/assets/images/");
    proof {
        reveal_strlit("src=");
    }
    assert(marker@ =~= asset_marker(quote, leading_slash));
    assert(replacement@ =~= asset_replacement(quote, book_id@));
    let s = chars_of(html);
    let ghost m = marker@;
    let ghost rp = replacement@;
    let mut out: Vec<char> = Vec::new();
    let mut pos: usize = 0;
    assert(s@.skip(0) =~= s@);
    while pos < s.len()
        invariant
            pos <= s@.len(),
            m == marker@,
            rp == replacement@,
            m.len() > 0,
            rewrite_spec(s@, m, rp, quote) == out@ + rewrite_spec(s@.skip(pos as int), m, rp, quote),
        decreases s.len() - pos,
    {
        let ghost rest = s@.skip(pos as int);
        let ghost before_out = out@;
        match find_from(s.as_slice(), pos, marker.as_slice()) {
            None => {
                let tail = slice_range(s.as_slice(), pos, s.len());
                assert(tail@ =~= rest);
                push_all(&mut out, tail.as_slice());
                proof {
                    lemma_rewrite_none(rest, m, rp, quote);
                    lemma_rewrite_empty(m, rp, quote);
                }
                pos = s.len();
                assert(s@.skip(pos as int) =~= Seq::<char>::empty());
            },
            Some(k) => {
                let ghost i = k - pos;
                proof {
                    lemma_find_text_found(rest, m);
                }
                let start = k + marker.len();
                let before = slice_range(s.as_slice(), pos, k);
                assert(before@ =~= rest.take(i));
                push_all(&mut out, before.as_slice());
                push_all(&mut out, replacement.as_slice());
                let ghost after = rest.skip(i + m.len());
                assert(after =~= s@.skip(start as int));
                match find_char_from(s.as_slice(), start, quote) {
                    None => {
                        let tail = slice_range(s.as_slice(), start, s.len());
                        assert(tail@ =~= after);
                        push_all(&mut out, tail.as_slice());
                        proof {
                            lemma_rewrite_unclosed(rest, m, rp, quote, i);
                            lemma_rewrite_empty(m, rp, quote);
                        }
                        pos = s.len();
                        assert(s@.skip(pos as int) =~= Seq::<char>::empty());
                        assert(out@ =~= before_out + (rest.take(i) + rp + after));
                    },
                    Some(e) => {
                        let ghost j = e - start;
                        let value = slice_range(s.as_slice(), start, e);
                        assert(value@ =~= after.take(j));
                        push_all(&mut out, value.as_slice());
                        out.push(quote);
                        pos = e + 1;
                        proof {
                            lemma_first_index_found(after, quote);
                            lemma_rewrite_closed(rest, m, rp, quote, i, j);
                        }
                        assert(after.skip(j + 1) =~= s@.skip(pos as int));
                        assert(out@ =~= before_out + (rest.take(i) + rp + after.take(j) + seq![quote]));
                    },
                }
            },
        }
    }
    proof {
        lemma_rewrite_empty(m, rp, quote);
    }
    assert(s@.skip(pos as int) =~= Seq::<char>::empty());
    string_of(out.as_slice())
}

/// Points every workspace image URL in rendered HTML at book `book_id`'s reader asset
/// endpoint: double quotes first, then single, each without and with a leading slash.
pub open spec fn rewrite_asset_urls_spec(html: Seq<char>, book_id: Seq<char>) -> Seq<char> {
    let a = rewrite_spec(html, asset_marker('"', false), asset_replacement('"', book_id), '"');
    let b = rewrite_spec(a, asset_marker('"', true), asset_replacement('"', book_id), '"');
    let c = rewrite_spec(b, asset_marker('\'', false), asset_replacement('\'', book_id), '\'');
    rewrite_spec(c, asset_marker('\'', true), asset_replacement('\'', book_id), '\'')
}

/// Points every workspace image URL in rendered HTML at the reader asset endpoint.
pub fn rewrite_reader_asset_urls(html: &str, book_id: &str) -> (r: String)
    ensures
        r@ == rewrite_asset_urls_spec(html@, book_id@),
{
    let a = rewrite_reader_asset_urls_for_quote(html, book_id, '"', false);
    let b = rewrite_reader_asset_urls_for_quote(a.as_str(), book_id, '"', true);
    let c = rewrite_reader_asset_urls_for_quote(b.as_str(), book_id, '\'', false);
    rewrite_reader_asset_urls_for_quote(c.as_str(), book_id, '\'', true)
}

/// Why a content request names no chapter.
#[derive(Debug, Clone, PartialEq, Eq)]
pub enum ChapterRequestError {
    /// The cursor could not be decoded.
    InvalidCursor { message: String },
    /// The cursor belongs to another revision.
    StaleRevision,
    /// No chapter has the requested id.
    ChapterNotFound,
}

impl ChapterRequestError {
    /// The HTTP status, error code and message the reader API answers with.
    pub fn response_parts(&self) -> (r: (u16, &'static str, String))
        ensures
            match self {
                ChapterRequestError::InvalidCursor { message } => r.0 == 400 && r.1@
                    == "invalid_cursor"@ && r.2@ == message@,
                ChapterRequestError::StaleRevision => r.0 == 409 && r.1@ == "stale_revision"@
                    && r.2@ == "The requested cursor belongs to an older revision."@,
                ChapterRequestError::ChapterNotFound => r.0 == 404 && r.1@ == "chapter_not_found"@
                    && r.2@ == "Requested chapter was not found."@,
            },
    {
        match self {
            ChapterRequestError::InvalidCursor { message } => (400, "invalid_cursor", message.clone()),
            ChapterRequestError::StaleRevision => (
                409,
                "stale_revision",
                "The requested cursor belongs to an older revision.".to_string(),
            ),
            ChapterRequestError::ChapterNotFound => (
                404,
                "chapter_not_found",
                "Requested chapter was not found.".to_string(),
            ),
        }
    }
}

/// The first chapter of `book` with id `id`.
pub open spec fn chapter_position(book: RenderedBook, id: Seq<char>) -> Option<int> {
    if exists|i: int| 0 <= i < book.chapters@.len() && book.chapters@[i].id@ == id {
        Some(
            choose|i: int|
                0 <= i < book.chapters@.len() && book.chapters@[i].id@ == id && forall|k: int|
                    0 <= k < i ==> book.chapters@[k].id@ != id,
        )
    } else {
        None
    }
}

/// The chapter a content request asks for. A cursor (given decoded, or with the reason it
/// could not be decoded) wins, and must belong to the current revision; else a chapter id
/// is looked up; else the first chapter.
pub fn requested_chapter_index(
    rendered: &RenderedBook,
    cursor: Option<Result<ChapterCursor, String>>,
    chapter_id: Option<&str>,
    current_revision_id: &str,
) -> (r: Result<usize, ChapterRequestError>)
    ensures
        match cursor {
            Some(Err(message)) => r matches Err(ChapterRequestError::InvalidCursor { message: m })
                && m@ == message@,
            Some(Ok(c)) => if c.revision_id@ != current_revision_id@ {
                r matches Err(ChapterRequestError::StaleRevision)
            } else {
                r == Ok::<usize, ChapterRequestError>(c.chapter_index)
            },
            None => match chapter_id {
                Some(id) => match chapter_position(*rendered, id@) {
                    Some(i) => r == Ok::<usize, ChapterRequestError>(i as usize),
                    None => r matches Err(ChapterRequestError::ChapterNotFound),
                },
                None => r == Ok::<usize, ChapterRequestError>(0),
            },
        },
{
    match cursor {
        Some(Err(message)) => {
            return Err(ChapterRequestError::InvalidCursor { message });
        },
        Some(Ok(c)) => {
            if !chars_eq(
                chars_of(c.revision_id.as_str()).as_slice(),
                chars_of(current_revision_id).as_slice(),
            ) {
                return Err(ChapterRequestError::StaleRevision);
            }
            return Ok(c.chapter_index);
        },
        None => {},
    }
    match chapter_id {
        None => Ok(0),
        Some(id) => {
            let want = chars_of(id);
            let mut i: usize = 0;
            while i < rendered.chapters.len()
                invariant
                    i <= rendered.chapters@.len(),
                    want@ == id@,
                    cursor is None,
                    chapter_id == Some(id),
                    forall|k: int| 0 <= k < i ==> rendered.chapters@[k].id@ != id@,
                decreases rendered.chapters.len() - i,
            {
                if chars_eq(chars_of(rendered.chapters[i].id.as_str()).as_slice(), want.as_slice()) {
                    proof {
                        lemma_chapter_position(*rendered, id@, i as int);
                    }
                    return Ok(i);
                }
                i = i + 1;
            }
            Err(ChapterRequestError::ChapterNotFound)
        },
    }
}

/// The JSON text of a chapter cursor, as `serde_json` writes it.
pub open spec fn cursor_json(revision_id: Seq<char>, chapter_index: nat) -> Seq<char> {
    "{\"revision_id\":"@ + json_string_text(revision_id) + ",\"chapter_index\":"@ + decimal(
        chapter_index,
    ) + "}"@
}

/// A chapter cursor as it travels in URLs: its JSON in URL-safe base64 without padding.
/// Decoding the text gives the cursor's JSON back.
pub fn encode_cursor(cursor: &ChapterCursor) -> (r: String)
    ensures
        r@ == base64_url_text(
            vstd::utf8::encode_utf8(
                cursor_json(cursor.revision_id@, cursor.chapter_index as nat),
            ),
        ),
        crate::links::base64_url_bytes(r@) == Some(
            vstd::utf8::encode_utf8(cursor_json(cursor.revision_id@, cursor.chapter_index as nat)),
        ),
        forall|i: int| 0 <= i < r@.len() ==> crate::links::url_safe_char(#[trigger] r@[i]),
{
    let mut json = chars_of("{\"revision_id\":");
    push_all(&mut json, chars_of(crate::links::json_string(cursor.revision_id.as_str()).as_str()).as_slice());
    push_str(&mut json, ",\"chapter_index\":");
    push_all(&mut json, decimal_u64(cursor.chapter_index as u64).as_slice());
    push_str(&mut json, "}");
    let text = string_of(json.as_slice());
    crate::links::base64_url_encode(text.as_str().as_bytes())
}

/// The JSON bytes a cursor from a URL carries, when it is URL-safe base64; the caller
/// parses them.
pub fn decode_cursor(cursor: &str) -> (r: Option<Vec<u8>>)
    ensures
        match crate::links::base64_url_bytes(cursor@) {
            Some(b) => r matches Some(v) && v@ == b,
            None => r is None,
        },
{
    crate::links::base64_url_decode(cursor)
}

/// The book a reader request names when the records know no book by that id but a
/// workspace on disk has it: active, written by no conversation, with the workspace's
/// title, path and times.
pub fn workspace_book(workspace: &BookWorkspace) -> (r: Book)
    ensures
        r@ == (BookView {
            book_id: workspace.book_id@,
            conversation_id: seq![],
            title: workspace.title@,
            status: BookStatus::Active,
            workspace_path: workspace.workspace_path@,
            created_at: workspace.created_at,
            updated_at: workspace.updated_at,
        }),
{
    let r = Book {
        book_id: workspace.book_id.clone(),
        conversation_id: String::new(),
        title: workspace.title.clone(),
        status: BookStatus::Active,
        workspace_path: workspace.workspace_path.clone(),
        created_at: workspace.created_at,
        updated_at: workspace.updated_at,
    };
    assert(r.conversation_id@ =~= Seq::<char>::empty());
    r
}

/// The revision the reader shows for a book with no stored revision, made from a render
/// of its workspace: `workspace-<content hash>`, ready, dated at the book's last update.
pub fn synthetic_workspace_revision(book: &Book, content_hash: &str) -> (r: Revision)
    ensures
        r@ == (RevisionView {
            revision_id: "workspace-"@ + content_hash@,
            book_id: book.book_id@,
            job_id: "workspace"@,
            summary: "Rendered directly from the local workspace."@,
            created_at: book.updated_at,
            render_status: RevisionRenderStatus::Ready,
        }),
{
    let mut id = chars_of("workspace-");
    push_all(&mut id, chars_of(content_hash).as_slice());
    Revision {
        revision_id: string_of(id.as_slice()),
        book_id: book.book_id.clone(),
        job_id: "workspace".to_string(),
        summary: "Rendered directly from the local workspace.".to_string(),
        created_at: book.updated_at,
        render_status: RevisionRenderStatus::Ready,
    }
}

/// The render status the reader reports: failed when the workspace does not render now,
/// else the revision's own status (ready when there is no revision).
pub fn reported_render_status(renders: bool, revision_status: Option<RevisionRenderStatus>) -> (r:
    RevisionRenderStatus)
    ensures
        !renders ==> r == RevisionRenderStatus::Failed,
        renders ==> r == match revision_status {
            Some(s) => s,
            None => RevisionRenderStatus::Ready,
        },
{
    if !renders {
        RevisionRenderStatus::Failed
    } else {
        match revision_status {
            Some(s) => s,
            None => RevisionRenderStatus::Ready,
        }
    }
}

/// The render error the reader reports for a revision: the current render's error, else
/// the summary of a revision whose render failed.
pub fn reported_render_error(render_error: Option<String>, revision: &Revision) -> (r: Option<String>)
    ensures
        crate::models::opt_text(r) == match crate::models::opt_text(render_error) {
            Some(e) => Some(e),
            None => if revision.render_status == RevisionRenderStatus::Failed {
                Some(revision.summary@)
            } else {
                None
            },
        },
{
    match render_error {
        Some(e) => Some(e),
        None => if revision.render_status == RevisionRenderStatus::Failed {
            Some(revision.summary.clone())
        } else {
            None
        },
    }
}

/// Checks that the latest revision can be read: it must be the one the request expects
/// (when it names one) and its render must not have failed. Gives the HTTP status, error
/// code and message otherwise.
pub fn check_readable_revision(revision: &Revision, expected_revision_id: Option<&str>) -> (r:
    Result<(), (u16, &'static str, String)>)
    ensures
        match expected_revision_id {
            Some(e) if e@ != revision.revision_id@ => r matches Err((status, code, message))
                && status == 409 && code@ == "stale_revision"@
                && message@ == "The requested revision is no longer current."@,
            _ => if revision.render_status == RevisionRenderStatus::Failed {
                r matches Err((status, code, message)) && status == 422 && code@
                    == "render_failed"@ && message@ == revision.summary@
            } else {
                r is Ok
            },
        },
{
    match expected_revision_id {
        Some(e) => {
            if !chars_eq(chars_of(e).as_slice(), chars_of(revision.revision_id.as_str()).as_slice()) {
                return Err(
                    (409, "stale_revision", "The requested revision is no longer current.".to_string()),
                );
            }
        },
        None => {},
    }
    if revision.render_status == RevisionRenderStatus::Failed {
        return Err((422, "render_failed", revision.summary.clone()));
    }
    Ok(())
}

/// The reader's answer for chapter `index` of a rendered revision: the chapter with its
/// image URLs pointed at book `book_id`'s assets, and a cursor to the next chapter when
/// there is one. `None` when the book has no such chapter.
pub fn chapter_content(rendered: &RenderedBook, revision_id: &str, index: usize, book_id: &str) -> (r:
    Option<ReaderContentResponse>)
    ensures
        index >= rendered.chapters@.len() ==> r is None,
        index < rendered.chapters@.len() ==> (r matches Some(c) && {
            let ch = rendered.chapters@[index as int];
            &&& c.revision_id@ == revision_id@
            &&& c.content_hash@ == rendered.content_hash@
            &&& c.chapter_index == index
            &&& c.chapter_id@ == ch.id@
            &&& c.title@ == ch.title@
            &&& c.source_file@ == ch.source_file@
            &&& c.html@ == rewrite_asset_urls_spec(ch.html@, book_id@)
            &&& c.has_more == (index + 1 < rendered.chapters@.len())
            &&& c.has_more ==> (c.next_cursor matches Some(n) && n@ == base64_url_text(
                vstd::utf8::encode_utf8(cursor_json(revision_id@, (index + 1) as nat)),
            ))
            &&& !c.has_more ==> c.next_cursor is None
        }),
{
    if index >= rendered.chapters.len() {
        return None;
    }
    let chapter = &rendered.chapters[index];
    let has_more = index + 1 < rendered.chapters.len();
    let next_cursor = if has_more {
        Some(encode_cursor(&ChapterCursor { revision_id: revision_id.to_string(), chapter_index: index + 1 }))
    } else {
        None
    };
    Some(ReaderContentResponse {
        revision_id: revision_id.to_string(),
        content_hash: rendered.content_hash.clone(),
        chapter_index: index,
        chapter_id: chapter.id.clone(),
        title: chapter.title.clone(),
        source_file: chapter.source_file.clone(),
        html: rewrite_reader_asset_urls(chapter.html.as_str(), book_id),
        has_more,
        next_cursor,
    })
}

} // verus!
