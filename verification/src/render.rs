//! Rendering a workspace into the book the reader shows: chapters framed into one HTML
//! document, a content hash over it, chapter titles, and the source positions that the
//! HTML carries back to the Markdown.
use vstd::prelude::*;

use crate::html::{escape_html_attr, escape_html_attr_spec};
use crate::media_assets::{AssetPathError, asset_error_text};
use crate::text::{
    chars_of, decimal, decimal_u64, has_prefix, push_all, push_str, starts_with, string_of,
    strip_prefix, strip_prefix_seq,
};
use crate::transcript::{lines_spec, transcript_lines};
use crate::workspace::ManifestContentEntry;

verus! {

broadcast use vstd::string::group_string_axioms;

/// One rendered chapter.
#[derive(Debug, Clone)]
pub struct RenderedChapter {
    pub id: String,
    pub kind: String,
    pub title: String,
    pub source_file: String,
    pub html: String,
}

/// A rendered book.
#[derive(Debug, Clone)]
pub struct RenderedBook {
    pub title: String,
    pub subtitle: String,
    pub theme: String,
    pub chapters: Vec<RenderedChapter>,
    pub full_html: String,
    pub content_hash: String,
}

/// The text after `# ` on the first line that starts with it, if any.
pub open spec fn first_heading_in(lines: Seq<Seq<char>>) -> Option<Seq<char>>
    decreases lines.len(),
{
    if lines.len() == 0 {
        None
    } else if has_prefix(lines[0], "# "@) {
        strip_prefix_seq(lines[0], "# "@)
    } else {
        first_heading_in(lines.drop_first())
    }
}

/// The first level-one heading of a Markdown text.
pub fn first_heading(markdown: &str) -> (r: Option<String>)
    ensures
        match first_heading_in(lines_spec(markdown@)) {
            Some(h) => r matches Some(s) && s@ == h,
            None => r is None,
        },
{
    let lines = transcript_lines(markdown);
    let ghost lv = lines@.map_values(|s: String| s@);
    let prefix = chars_of("# ");
    let mut i: usize = 0;
    assert(lv.skip(0) =~= lv);
    while i < lines.len()
        invariant
            i <= lines@.len(),
            lv == lines@.map_values(|s: String| s@),
            lv == lines_spec(markdown@),
            prefix@ == "# "@,
            first_heading_in(lv) == first_heading_in(lv.skip(i as int)),
        decreases lines.len() - i,
    {
        assert(lv.skip(i as int)[0] == lines@[i as int]@);
        let l = chars_of(lines[i].as_str());
        match strip_prefix(l.as_slice(), prefix.as_slice()) {
            Some(rest) => {
                return Some(string_of(rest.as_slice()));
            },
            None => {},
        }
        assert(lv.skip(i as int).drop_first() =~= lv.skip(i + 1));
        i = i + 1;
    }
    None
}

/// A chapter as it appears in the book's full HTML.
pub open spec fn section_text(kind: Seq<char>, id: Seq<char>, html: Seq<char>) -> Seq<char> {
    "<section data-kind=\""@ + kind + "\" data-id=\""@ + id + "\">"@ + html + "</section>"@
}

/// The full HTML of a book: its chapters' sections, in order.
pub open spec fn full_html_spec(chapters: Seq<RenderedChapter>) -> Seq<char>
    decreases chapters.len(),
{
    if chapters.len() == 0 {
        seq![]
    } else {
        let c = chapters.last();
        full_html_spec(chapters.drop_last()) + section_text(c.kind@, c.id@, c.html@)
    }
}

/// The SHA-256 digest of `bytes`.
pub uninterp spec fn sha256_digest(bytes: Seq<u8>) -> Seq<u8>;

/// Computes SHA-256 (`sha2::Sha256::digest`).
#[verifier::external_body]
fn sha256(bytes: &[u8]) -> (r: Vec<u8>)
    ensures
        r@ == sha256_digest(bytes@),
{
    <sha2::Sha256 as sha2::Digest>::digest(bytes).to_vec()
}

/// The lower-case hexadecimal digit of `d < 16`.
pub open spec fn hex_digit(d: int) -> char {
    if d < 10 {
        (48 + d) as char
    } else {
        (87 + d) as char
    }
}

/// Bytes as lower-case hexadecimal, two digits each (the `{:x}` form of a digest).
pub open spec fn hex_text(bytes: Seq<u8>) -> Seq<char>
    decreases bytes.len(),
{
    if bytes.len() == 0 {
        seq![]
    } else {
        hex_text(bytes.drop_last()) + seq![
            hex_digit(bytes.last() as int / 16),
            hex_digit(bytes.last() as int % 16),
        ]
    }
}

fn hex_char(d: u8) -> (r: char)
    requires
        d < 16,
    ensures
        r == hex_digit(d as int),
{
    if d < 10 {
        (48 + d) as char
    } else {
        (87 + d) as char
    }
}

/// Bytes as lower-case hexadecimal.
pub fn to_hex(bytes: &[u8]) -> (r: String)
    ensures
        r@ == hex_text(bytes@),
{
    let mut out: Vec<char> = Vec::new();
    let mut i: usize = 0;
    while i < bytes.len()
        invariant
            i <= bytes.len(),
            out@ == hex_text(bytes@.take(i as int)),
        decreases bytes.len() - i,
    {
        let b = bytes[i];
        out.push(hex_char(b / 16));
        out.push(hex_char(b % 16));
        assert(bytes@.take(i + 1).drop_last() =~= bytes@.take(i as int));
        assert(out@ =~= hex_text(bytes@.take(i + 1)));
        i = i + 1;
    }
    assert(bytes@.take(bytes.len() as int) =~= bytes@);
    string_of(out.as_slice())
}

/// The content hash of a book: the SHA-256 of its full HTML (UTF-8), in hexadecimal.
pub open spec fn content_hash_spec(full_html: Seq<char>) -> Seq<char> {
    hex_text(sha256_digest(vstd::utf8::encode_utf8(full_html)))
}

/// The chapter rendered from a manifest entry: its HTML, and its title from the first
/// heading of its Markdown, else the entry id.
pub fn rendered_chapter(entry: &ManifestContentEntry, markdown: &str, html: String) -> (r:
    RenderedChapter)
    ensures
        r.id@ == entry.id@,
        r.kind@ == entry.kind@,
        r.title@ == match first_heading_in(lines_spec(markdown@)) {
            Some(h) => h,
            None => entry.id@,
        },
        r.source_file@ == entry.file@,
        r.html@ == html@,
{
    let title = match first_heading(markdown) {
        Some(t) => t,
        None => entry.id.clone(),
    };
    RenderedChapter {
        id: entry.id.clone(),
        kind: entry.kind.clone(),
        title,
        source_file: entry.file.clone(),
        html,
    }
}

/// Why a workspace could not be rendered.
#[derive(Debug, Clone, PartialEq, Eq)]
pub enum RenderError {
    /// The manifest lists no chapter.
    NoContent,
    /// A text run's source range does not fall on character boundaries of the source.
    SourceOffset,
    /// An image resolves to a workspace path that is not an image asset path.
    ImageRefused(AssetPathError),
    /// An image resolves to a workspace path where no file is.
    ImageMissing { dest_url: String },
}

/// The message shown for a render error.
pub open spec fn render_error_text(e: RenderError) -> Seq<char> {
    match e {
        RenderError::NoContent => "book manifest contains no content entries"@,
        RenderError::SourceOffset => "text source range is not on character boundaries"@,
        RenderError::ImageRefused(a) => asset_error_text(a),
        RenderError::ImageMissing { dest_url } => "image reference `"@ + dest_url@
            + "` does not exist"@,
    }
}

impl RenderError {
    /// The message shown for the error.
    pub fn message(&self) -> (r: String)
        ensures
            r@ == render_error_text(*self),
    {
        match self {
            RenderError::NoContent => "book manifest contains no content entries".to_string(),
            RenderError::SourceOffset => "text source range is not on character boundaries".to_string(),
            RenderError::ImageRefused(a) => a.message().to_string(),
            RenderError::ImageMissing { dest_url } => {
                let mut v = chars_of("image reference `");
                push_all(&mut v, chars_of(dest_url.as_str()).as_slice());
                push_str(&mut v, "` does not exist");
                string_of(v.as_slice())
            },
        }
    }
}

/// Puts a book together from its chapters: their sections make the full HTML, which the
/// content hash covers. A book needs at least one chapter.
pub fn assemble_rendered_book(
    title: String,
    subtitle: String,
    theme: String,
    chapters: Vec<RenderedChapter>,
) -> (r: Result<RenderedBook, RenderError>)
    ensures
        chapters@.len() == 0 ==> r == Err::<RenderedBook, RenderError>(RenderError::NoContent),
        chapters@.len() > 0 ==> (r matches Ok(b) && {
            &&& b.title@ == title@
            &&& b.subtitle@ == subtitle@
            &&& b.theme@ == theme@
            &&& b.chapters@ == chapters@
            &&& b.full_html@ == full_html_spec(chapters@)
            &&& b.content_hash@ == content_hash_spec(full_html_spec(chapters@))
        }),
{
    if chapters.len() == 0 {
        return Err(RenderError::NoContent);
    }
    let mut full: Vec<char> = Vec::new();
    let mut i: usize = 0;
    while i < chapters.len()
        invariant
            i <= chapters@.len(),
            full@ == full_html_spec(chapters@.take(i as int)),
        decreases chapters.len() - i,
    {
        let c = &chapters[i];
        push_str(&mut full, "<section data-kind=\"");
        push_all(&mut full, chars_of(c.kind.as_str()).as_slice());
        push_str(&mut full, "\" data-id=\"");
        push_all(&mut full, chars_of(c.id.as_str()).as_slice());
        push_str(&mut full, "\">");
        push_all(&mut full, chars_of(c.html.as_str()).as_slice());
        push_str(&mut full, "</section>");
        assert(chapters@.take(i + 1).drop_last() =~= chapters@.take(i as int));
        assert(full@ =~= full_html_spec(chapters@.take(i + 1)));
        i = i + 1;
    }
    assert(chapters@.take(chapters.len() as int) =~= chapters@);
    let full_html = string_of(full.as_slice());
    let digest = sha256(full_html.as_str().as_bytes());
    let content_hash = to_hex(digest.as_slice());
    Ok(RenderedBook { title, subtitle, theme, chapters, full_html, content_hash })
}

/// Where an image reference that already points into the workspace's images goes:
/// `assets/images/…` is kept and `/assets/images/…` loses its leading slash. Other
/// references need the file system to resolve.
pub open spec fn workspace_image_reference_spec(dest_url: Seq<char>) -> Option<Seq<char>> {
    if has_prefix(dest_url, "assets/images/"@) {
        Some(dest_url)
    } else if has_prefix(dest_url, "/assets/images/"@) {
        Some(dest_url.skip(1))
    } else {
        None
    }
}

/// The workspace-relative form of an image reference that points into the images
/// directory by its text alone.
pub fn workspace_image_reference(dest_url: &str) -> (r: Option<String>)
    ensures
        match workspace_image_reference_spec(dest_url@) {
            Some(p) => r matches Some(s) && s@ == p,
            None => r is None,
        },
{
    let d = chars_of(dest_url);
    if starts_with(d.as_slice(), chars_of("assets/images/").as_slice()) {
        return Some(dest_url.to_string());
    }
    let rooted = chars_of("/assets/images/");
    proof {
        reveal_strlit("/assets/images/");
    }
    if starts_with(d.as_slice(), rooted.as_slice()) {
        let rest = crate::text::slice_range(d.as_slice(), 1, d.len());
        assert(rest@ =~= dest_url@.skip(1));
        return Some(string_of(rest.as_slice()));
    }
    None
}

/// A position in a Markdown source: line and character, both counted from 1.
#[derive(Debug, Clone, Copy, PartialEq, Eq, Structural)]
pub struct SourcePosition {
    pub line: usize,
    pub character: usize,
}

/// The number of `\n` bytes in `b`.
pub open spec fn newline_count(b: Seq<u8>) -> nat
    decreases b.len(),
{
    if b.len() == 0 {
        0
    } else {
        newline_count(b.drop_last()) + if b.last() == 10u8 {
            1nat
        } else {
            0nat
        }
    }
}

/// Where the line holding byte offset `n` starts: just after the last `\n` before `n`.
pub open spec fn line_start_before(b: Seq<u8>, n: int) -> int
    decreases n,
{
    if n <= 0 {
        0
    } else if b[n - 1] == 10u8 {
        n
    } else {
        line_start_before(b, n - 1)
    }
}

/// The number of bytes in `b` that begin a UTF-8 character (that are not continuation
/// bytes): for text cut at character boundaries, its number of characters.
pub open spec fn char_starts(b: Seq<u8>) -> nat
    decreases b.len(),
{
    if b.len() == 0 {
        0
    } else {
        char_starts(b.drop_last()) + if b.last() < 0x80u8 || b.last() >= 0xC0u8 {
            1nat
        } else {
            0nat
        }
    }
}

/// The position of byte offset `n` in `b`: one more than the number of newlines before
/// it, and one more than the number of characters between its line's start and it.
pub open spec fn position_spec(b: Seq<u8>, n: int) -> SourcePosition {
    SourcePosition {
        line: (newline_count(b.take(n)) + 1) as usize,
        character: (char_starts(b.subrange(line_start_before(b, n), n)) + 1) as usize,
    }
}

/// Finds the line and character of byte offsets in one Markdown source.
pub struct SourceLineIndex {
    source: Vec<u8>,
    line_starts: Vec<usize>,
}

impl SourceLineIndex {
    /// The bytes of the source.
    pub closed spec fn bytes(&self) -> Seq<u8> {
        self.source@
    }

    /// The index is consistent: `line_starts` holds 0 and each offset just after a `\n`,
    /// ascending.
    pub closed spec fn well_formed(&self) -> bool {
        &&& self.line_starts@.len() == newline_count(self.source@) + 1
        &&& self.line_starts@[0] == 0
        &&& forall|k: int|
            #![trigger self.line_starts@[k]]
            1 <= k < self.line_starts@.len() ==> {
                let p = self.line_starts@[k] as int;
                &&& 1 <= p <= self.source@.len()
                &&& self.source@[p - 1] == 10u8
                &&& newline_count(self.source@.take(p)) == k
            }
    }

    /// Indexes the lines of `source`.
    pub fn new(source: &str) -> (r: SourceLineIndex)
        ensures
            r.well_formed(),
            r.bytes() == vstd::utf8::encode_utf8(source@),
    {
        let bytes = source.as_bytes();
        let mut copy: Vec<u8> = Vec::new();
        let mut line_starts: Vec<usize> = Vec::new();
        line_starts.push(0);
        let mut i: usize = 0;
        assert(bytes@.take(0) =~= Seq::<u8>::empty());
        while i < bytes.len()
            invariant
                i <= bytes@.len(),
                copy@ == bytes@.take(i as int),
                line_starts@.len() == newline_count(bytes@.take(i as int)) + 1,
                line_starts@[0] == 0,
                forall|k: int|
                    #![trigger line_starts@[k]]
                    1 <= k < line_starts@.len() ==> {
                        let p = line_starts@[k] as int;
                        &&& 1 <= p <= i
                        &&& bytes@[p - 1] == 10u8
                        &&& newline_count(bytes@.take(p)) == k
                    },
            decreases bytes.len() - i,
        {
            let b = bytes[i];
            copy.push(b);
            assert(bytes@.take(i + 1).drop_last() =~= bytes@.take(i as int));
            assert(copy@ =~= bytes@.take(i + 1));
            if b == 10u8 {
                line_starts.push(i + 1);
            }
            i = i + 1;
        }
        assert(bytes@.take(bytes.len() as int) =~= bytes@);
        SourceLineIndex { source: copy, line_starts }
    }

    /// The line and character of byte offset `byte_offset`, which must lie within the
    /// source at a character boundary.
    pub fn position(&self, byte_offset: usize) -> (r: SourcePosition)
        requires
            self.well_formed(),
            byte_offset <= self.bytes().len(),
            self.bytes().len() < usize::MAX,
            vstd::utf8::is_char_boundary(self.bytes(), byte_offset as int),
        ensures
            r == position_spec(self.bytes(), byte_offset as int),
    {
        let b = &self.source;
        let mut j: usize = 0;
        let mut line_start: usize = 0;
        proof {
            lemma_newline_count_mono(b@, 0, byte_offset as int);
            lemma_newline_count_mono(b@, 0, b@.len() as int);
            assert(b@.take(b@.len() as int) =~= b@);
            assert(b@.take(0) =~= Seq::<u8>::empty());
        }
        let n = self.line_starts.len();
        while j + 1 < n && self.line_starts[j + 1] <= byte_offset
            invariant
                self.well_formed(),
                n == self.line_starts@.len(),
                n <= self.source@.len() + 1,
                self.source@.len() < usize::MAX,
                b@ == self.source@,
                byte_offset <= b@.len(),
                j < self.line_starts@.len(),
                line_start == self.line_starts@[j as int],
                line_start <= byte_offset,
                newline_count(b@.take(line_start as int)) == j,
                line_start == 0 || b@[line_start - 1] == 10u8,
            decreases self.line_starts.len() - j,
        {
            j = j + 1;
            line_start = self.line_starts[j];
        }
        proof {
            lemma_no_newline_between(b@, line_start as int, byte_offset as int, j as int, self);
        }
        let mut count: usize = 0;
        let mut k = line_start;
        assert(b@.subrange(line_start as int, line_start as int) =~= Seq::<u8>::empty());
        while k < byte_offset
            invariant
                line_start <= k <= byte_offset <= b@.len(),
                count == char_starts(b@.subrange(line_start as int, k as int)),
                count <= k - line_start,
            decreases byte_offset - k,
        {
            let x = b[k];
            assert(b@.subrange(line_start as int, k + 1).drop_last() =~= b@.subrange(
                line_start as int,
                k as int,
            ));
            if x < 0x80u8 || x >= 0xC0u8 {
                count = count + 1;
            }
            k = k + 1;
        }
        SourcePosition { line: j + 1, character: count + 1 }
    }
}

proof fn lemma_newline_count_mono(b: Seq<u8>, m: int, n: int)
    requires
        0 <= m <= n <= b.len(),
    ensures
        newline_count(b.take(m)) <= newline_count(b.take(n)),
        newline_count(b.take(n)) <= newline_count(b.take(m)) + (n - m),
    decreases n - m,
{
    if m < n {
        lemma_newline_count_mono(b, m, n - 1);
        assert(b.take(n).drop_last() =~= b.take(n - 1));
    }
}

proof fn lemma_no_newline_between(b: Seq<u8>, s: int, n: int, j: int, idx: &SourceLineIndex)
    requires
        idx.well_formed(),
        b == idx.bytes(),
        0 <= s <= n <= b.len(),
        0 <= j < idx.line_starts@.len(),
        s == idx.line_starts@[j] as int,
        s == 0 || b[s - 1] == 10u8,
        newline_count(b.take(s)) == j,
        j + 1 >= idx.line_starts@.len() || idx.line_starts@[j + 1] > n,
    ensures
        newline_count(b.take(n)) == j,
        line_start_before(b, n) == s,
    decreases n - s,
{
    if n > s {
        // a newline at n - 1 would start line j + 1 at offset n, which the index puts
        // after n
        lemma_no_newline_between(b, s, n - 1, j, idx);
        assert(b.take(n).drop_last() =~= b.take(n - 1));
        if b[n - 1] == 10u8 {
            let k = j + 1;
            assert(newline_count(b.take(n)) == k);
            lemma_line_start_exists(b, n, idx);
            assert(false);
        }
    }
}

/// Every offset just after a `\n` is a recorded line start, at the position given by
/// the number of newlines up to it.
proof fn lemma_line_start_exists(b: Seq<u8>, p: int, idx: &SourceLineIndex)
    requires
        idx.well_formed(),
        b == idx.bytes(),
        1 <= p <= b.len(),
        b[p - 1] == 10u8,
    ensures
        newline_count(b.take(p)) < idx.line_starts@.len(),
        idx.line_starts@[newline_count(b.take(p)) as int] == p,
{
    lemma_newline_count_mono(b, p, b.len() as int);
    assert(b.take(b.len() as int) =~= b);
    let k = newline_count(b.take(p)) as int;
    assert(b.take(p).drop_last() =~= b.take(p - 1));
    assert(k >= 1);
    let q = idx.line_starts@[k] as int;
    assert(newline_count(b.take(q)) == k);
    if q < p {
        lemma_newline_count_mono(b, q, p - 1);
    } else if q > p {
        lemma_newline_count_mono(b, p, q - 1);
        assert(b.take(q).drop_last() =~= b.take(q - 1));
    }
}

/// The opening tag of the span that carries a text run's source range.
pub open spec fn source_span_text(
    source_file: Seq<char>,
    start: SourcePosition,
    end: SourcePosition,
) -> Seq<char> {
    "<span data-source-file=\""@ + escape_html_attr_spec(source_file)
        + "\" data-source-start-line=\""@ + decimal(start.line as nat)
        + "\" data-source-start-char=\""@ + decimal(start.character as nat)
        + "\" data-source-end-line=\""@ + decimal(end.line as nat)
        + "\" data-source-end-char=\""@ + decimal(end.character as nat) + "\">"@
}

/// The opening tag of the span that carries a text run's source range.
pub fn source_span_open(source_file: &str, start: SourcePosition, end: SourcePosition) -> (r:
    String)
    ensures
        r@ == source_span_text(source_file@, start, end),
{
    let mut v = chars_of("<span data-source-file=\"");
    push_all(&mut v, chars_of(escape_html_attr(source_file).as_str()).as_slice());
    push_str(&mut v, "\" data-source-start-line=\"");
    push_all(&mut v, decimal_u64(start.line as u64).as_slice());
    push_str(&mut v, "\" data-source-start-char=\"");
    push_all(&mut v, decimal_u64(start.character as u64).as_slice());
    push_str(&mut v, "\" data-source-end-line=\"");
    push_all(&mut v, decimal_u64(end.line as u64).as_slice());
    push_str(&mut v, "\" data-source-end-char=\"");
    push_all(&mut v, decimal_u64(end.character as u64).as_slice());
    push_str(&mut v, "\">");
    string_of(v.as_slice())
}

} // verus!
