//! The layout of a book workspace: its manifest, its style, the starter files a new
//! workspace receives, and which files differ between two snapshots of it.
use vstd::prelude::*;
use crate::models::{BookLanguage, language_code, parse_language};
use crate::paths::{join, join_path};
use crate::text::{
    chars_of, string_of, ascii_lower, is_ascii_alnum, is_ascii_alphanumeric, to_ascii_lower,
    trim_char, trim_char_seq, seq_lt, lemma_seq_lt_total, lemma_seq_lt_transitive, text_lt,
    chars_eq,
};

verus! {

broadcast use vstd::string::group_string_axioms;

/// The manifest file of a workspace.
pub const BOOK_MANIFEST_FILE: &'static str = "book.yaml";

/// The style file of a workspace.
pub const STYLE_FILE: &'static str = "style.yaml";

/// The title page every new workspace starts with.
pub const TITLE_PAGE_FILE: &'static str = "content/frontmatter/001-title-page.md";

/// The first chapter every new workspace starts with.
pub const OPENING_CHAPTER_FILE: &'static str = "content/chapters/001-opening.md";

/// The directory that holds a workspace's images.
pub const IMAGES_DIR: &'static str = "assets/images";

/// The directory of front matter.
pub const FRONTMATTER_DIR: &'static str = "content/frontmatter";

/// The directory of chapters.
pub const CHAPTERS_DIR: &'static str = "content/chapters";

/// The directory of back matter.
pub const BACKMATTER_DIR: &'static str = "content/backmatter";

/// One entry of a manifest's table of contents.
pub struct ManifestContentEntry {
    pub id: String,
    pub kind: String,
    pub file: String,
}

/// Where a workspace keeps its assets.
pub struct AssetConfig {
    pub images_dir: String,
}

/// The repository a book is published to.
pub struct ManifestRepository {
    pub provider: String,
    pub url: String,
}

/// The `book.yaml` manifest of a workspace.
pub struct BookManifest {
    pub book_id: String,
    pub conversation_key: String,
    pub title: String,
    pub subtitle: String,
    pub language: String,
    pub render_profile: String,
    pub repository: Option<ManifestRepository>,
    pub content: Vec<ManifestContentEntry>,
    pub assets: AssetConfig,
}

/// The `style.yaml` of a workspace. Each table is a list of key and value pairs in
/// ascending key order, as a sorted map yields them.
pub struct StyleConfig {
    pub theme: String,
    pub typography: Vec<(String, String)>,
    pub layout: Vec<(String, String)>,
    pub images: Vec<(String, String)>,
}

/// The subtitle a new book starts with.
pub open spec fn subtitle_text(language: BookLanguage) -> Seq<char> {
    match language {
        BookLanguage::English => "Draft in progress"@,
        BookLanguage::Russian => "Черновик в работе"@,
    }
}

/// The opening chapter of a workspace created for a conversation.
pub open spec fn opening_text(language: BookLanguage) -> Seq<char> {
    match language {
        BookLanguage::English => "# Opening\n\nThis conversation is ready for authoring.\n"@,
        BookLanguage::Russian => "# Начало\n\nЭта беседа готова для работы над книгой.\n"@,
    }
}

/// The subtitle a new book starts with.
pub fn localized_subtitle(language: BookLanguage) -> (r: &'static str)
    ensures
        r@ == subtitle_text(language),
{
    match language {
        BookLanguage::English => "Draft in progress",
        BookLanguage::Russian => "Черновик в работе",
    }
}

/// The opening chapter of a workspace created for a conversation.
pub fn localized_opening(language: BookLanguage) -> (r: &'static str)
    ensures
        r@ == opening_text(language),
{
    match language {
        BookLanguage::English => "# Opening\n\nThis conversation is ready for authoring.\n",
        BookLanguage::Russian => "# Начало\n\nЭта беседа готова для работы над книгой.\n",
    }
}

/// Whether `m` is the manifest a new workspace starts with: the given identity, title and
/// language, the localized subtitle, the standard render profile, no repository, a title
/// page and an opening chapter, and images under `assets/images`.
pub open spec fn is_starter_manifest(
    m: BookManifest,
    book_id: Seq<char>,
    conversation_key: Seq<char>,
    title: Seq<char>,
    language: BookLanguage,
) -> bool {
    &&& m.book_id@ == book_id
    &&& m.conversation_key@ == conversation_key
    &&& m.title@ == title
    &&& m.subtitle@ == subtitle_text(language)
    &&& m.language@ == language_code(language)
    &&& m.render_profile@ == "standard-book"@
    &&& m.repository is None
    &&& m.content@.len() == 2
    &&& m.content@[0].id@ == "title-page"@
    &&& m.content@[0].kind@ == "frontmatter"@
    &&& m.content@[0].file@ == TITLE_PAGE_FILE@
    &&& m.content@[1].id@ == "chapter-1"@
    &&& m.content@[1].kind@ == "chapter"@
    &&& m.content@[1].file@ == OPENING_CHAPTER_FILE@
    &&& m.assets.images_dir@ == IMAGES_DIR@
}

/// The manifest a new workspace starts with.
pub fn starter_manifest(
    book_id: &str,
    conversation_key: &str,
    title: &str,
    language: BookLanguage,
) -> (m: BookManifest)
    ensures
        is_starter_manifest(m, book_id@, conversation_key@, title@, language),
{
    let content = vec![
        ManifestContentEntry {
            id: "title-page".to_string(),
            kind: "frontmatter".to_string(),
            file: TITLE_PAGE_FILE.to_string(),
        },
        ManifestContentEntry {
            id: "chapter-1".to_string(),
            kind: "chapter".to_string(),
            file: OPENING_CHAPTER_FILE.to_string(),
        },
    ];
    BookManifest {
        book_id: book_id.to_string(),
        conversation_key: conversation_key.to_string(),
        title: title.to_string(),
        subtitle: localized_subtitle(language).to_string(),
        language: language.code().to_string(),
        render_profile: "standard-book".to_string(),
        repository: None,
        content,
        assets: AssetConfig { images_dir: IMAGES_DIR.to_string() },
    }
}

/// The views of a table of key and value pairs.
pub open spec fn pair_views(v: Seq<(String, String)>) -> Seq<(Seq<char>, Seq<char>)> {
    v.map_values(|p: (String, String)| (p.0@, p.1@))
}

fn pair(k: &str, v: &str) -> (r: (String, String))
    ensures
        r.0@ == k@,
        r.1@ == v@,
{
    (k.to_string(), v.to_string())
}

/// Whether `s` is the style a new workspace starts with.
pub open spec fn is_default_style(s: StyleConfig) -> bool {
    &&& s.theme@ == "classic-readable"@
    &&& pair_views(s.typography@) == seq![
        ("body"@, "book-serif"@),
        ("headings"@, "editorial-serif"@),
        ("scale"@, "medium"@),
    ]
    &&& pair_views(s.layout@) == seq![
        ("chapter_opening"@, "spacious"@),
        ("page_width"@, "readable"@),
    ]
    &&& pair_views(s.images@) == seq![
        ("captions"@, "enabled"@),
        ("default_alignment"@, "center"@),
        ("default_width"@, "medium"@),
    ]
}

/// The style a new workspace starts with.
pub fn default_style() -> (s: StyleConfig)
    ensures
        is_default_style(s),
{
    let typography = vec![
        pair("body", "book-serif"),
        pair("headings", "editorial-serif"),
        pair("scale", "medium"),
    ];
    let layout = vec![pair("chapter_opening", "spacious"), pair("page_width", "readable")];
    let images = vec![
        pair("captions", "enabled"),
        pair("default_alignment", "center"),
        pair("default_width", "medium"),
    ];
    let s = StyleConfig { theme: "classic-readable".to_string(), typography, layout, images };
    assert(pair_views(s.typography@) =~= seq![
        ("body"@, "book-serif"@),
        ("headings"@, "editorial-serif"@),
        ("scale"@, "medium"@),
    ]);
    assert(pair_views(s.layout@) =~= seq![
        ("chapter_opening"@, "spacious"@),
        ("page_width"@, "readable"@),
    ]);
    assert(pair_views(s.images@) =~= seq![
        ("captions"@, "enabled"@),
        ("default_alignment"@, "center"@),
        ("default_width"@, "medium"@),
    ]);
    s
}

/// The title page of a new book: the title as a heading, then the subtitle.
pub open spec fn title_page_text(title: Seq<char>, subtitle: Seq<char>) -> Seq<char> {
    "# "@ + title + "\n\n"@ + subtitle + "\n"@
}

/// The title page of a new book.
pub fn title_page_markdown(title: &str, subtitle: &str) -> (r: String)
    ensures
        r@ == title_page_text(title@, subtitle@),
{
    let mut out = chars_of("# ");
    let t = chars_of(title);
    crate::text::push_all(&mut out, t.as_slice());
    crate::text::push_str(&mut out, "\n\n");
    let s = chars_of(subtitle);
    crate::text::push_all(&mut out, s.as_slice());
    crate::text::push_str(&mut out, "\n");
    string_of(out.as_slice())
}

/// A character of a conversation key as it appears in a directory name: ASCII letters
/// and digits lower-cased, anything else a hyphen.
pub open spec fn dir_char(c: char) -> char {
    if is_ascii_alnum(c) {
        ascii_lower(c)
    } else {
        '-'
    }
}

/// The directory name of a conversation key, without leading or trailing hyphens.
pub open spec fn slugify_spec(value: Seq<char>) -> Seq<char> {
    trim_char_seq(value.map_values(|c: char| dir_char(c)), '-')
}

/// The directory name of a conversation key.
pub fn slugify(value: &str) -> (r: String)
    ensures
        r@ == slugify_spec(value@),
{
    let v = chars_of(value);
    let mut mapped: Vec<char> = Vec::new();
    let mut i: usize = 0;
    while i < v.len()
        invariant
            i <= v.len(),
            v@ == value@,
            mapped@ == v@.take(i as int).map_values(|c: char| dir_char(c)),
        decreases v.len() - i,
    {
        let c = v[i];
        let d = if is_ascii_alphanumeric(c) {
            to_ascii_lower(c)
        } else {
            '-'
        };
        mapped.push(d);
        i = i + 1;
        assert(mapped@ =~= v@.take(i as int).map_values(|c: char| dir_char(c)));
    }
    assert(v@.take(v.len() as int) =~= v@);
    let t = trim_char(mapped.as_slice(), '-');
    string_of(t.as_slice())
}

/// The workspace directory of a conversation under `root`.
pub fn workspace_dir(root: &str, conversation_id: &str) -> (r: String)
    ensures
        r@ == join_path(root@, slugify_spec(conversation_id@)),
{
    let slug = slugify(conversation_id);
    let rv = chars_of(root);
    let sv = chars_of(slug.as_str());
    let j = join(rv.as_slice(), sv.as_slice());
    string_of(j.as_slice())
}

/// The language a workspace's manifest records, given the `language` field of the
/// manifest when it could be read: English when it could not or names no language.
pub fn read_book_language(manifest_language: Option<&str>) -> (r: BookLanguage)
    ensures
        r == match manifest_language {
            Some(code) => match parse_language(code@) {
                Some(l) => l,
                None => BookLanguage::English,
            },
            None => BookLanguage::English,
        },
{
    match manifest_language {
        Some(code) => BookLanguage::from_manifest_code(code),
        None => BookLanguage::default(),
    }
}

/// The files of a workspace the way they are written: its path and the contents of the
/// manifest and style files, and of the two starter pages.
pub struct WorkspaceTemplate {
    pub path: String,
    pub manifest: BookManifest,
    pub style: StyleConfig,
    pub title_page: String,
    pub opening: String,
}

/// What a conversation's workspace under `root` holds when it is created: the starter
/// manifest (keyed by the conversation), the default style, a title page and the opening
/// chapter. Files that already exist are kept by whoever writes the template.
pub fn workspace_template(
    root: &str,
    conversation_id: &str,
    book_id: &str,
    title: &str,
    language: BookLanguage,
) -> (t: WorkspaceTemplate)
    ensures
        t.path@ == join_path(root@, slugify_spec(conversation_id@)),
        is_starter_manifest(t.manifest, book_id@, conversation_id@, title@, language),
        is_default_style(t.style),
        t.title_page@ == title_page_text(title@, subtitle_text(language)),
        t.opening@ == opening_text(language),
{
    let path = workspace_dir(root, conversation_id);
    let manifest = starter_manifest(book_id, conversation_id, title, language);
    let title_page = title_page_markdown(manifest.title.as_str(), manifest.subtitle.as_str());
    WorkspaceTemplate {
        path,
        manifest,
        style: default_style(),
        title_page,
        opening: localized_opening(language).to_string(),
    }
}

/// The views of a snapshot of a workspace: each file's relative path and bytes.
pub open spec fn file_views(v: Seq<(String, Vec<u8>)>) -> Seq<(Seq<char>, Seq<u8>)> {
    v.map_values(|f: (String, Vec<u8>)| (f.0@, f.1@))
}

/// The bytes a snapshot holds for `path`: those of the first entry with that path.
pub open spec fn file_lookup(files: Seq<(Seq<char>, Seq<u8>)>, path: Seq<char>) -> Option<Seq<u8>>
    decreases files.len(),
{
    if files.len() == 0 {
        None
    } else if files[0].0 == path {
        Some(files[0].1)
    } else {
        file_lookup(files.drop_first(), path)
    }
}

/// Whether `path` is absent from one snapshot and present in the other, or present in
/// both with different bytes.
pub open spec fn file_changed(
    before: Seq<(Seq<char>, Seq<u8>)>,
    after: Seq<(Seq<char>, Seq<u8>)>,
    path: Seq<char>,
) -> bool {
    file_lookup(before, path) != file_lookup(after, path)
}

/// Whether `s` is in strictly ascending order.
pub open spec fn strictly_ascending(s: Seq<Seq<char>>) -> bool {
    forall|i: int, j: int| 0 <= i < j < s.len() ==> seq_lt(#[trigger] s[i], #[trigger] s[j])
}

/// The views of a list of strings.
pub open spec fn string_views(v: Seq<String>) -> Seq<Seq<char>> {
    v.map_values(|s: String| s@)
}

fn bytes_eq(a: &[u8], b: &[u8]) -> (r: bool)
    ensures
        r == (a@ == b@),
{
    if a.len() != b.len() {
        return false;
    }
    let mut i: usize = 0;
    while i < a.len()
        invariant
            i <= a.len() == b.len(),
            forall|k: int| 0 <= k < i ==> a@[k] == b@[k],
        decreases a.len() - i,
    {
        if a[i] != b[i] {
            return false;
        }
        i = i + 1;
    }
    assert(a@ =~= b@);
    true
}

fn lookup_file(files: &Vec<(String, Vec<u8>)>, path: &str) -> (r: Option<usize>)
    ensures
        match r {
            Some(i) => i < files@.len() && file_lookup(file_views(files@), path@) == Some(
                files@[i as int].1@,
            ),
            None => file_lookup(file_views(files@), path@) is None,
        },
{
    let ghost fv = file_views(files@);
    let p = chars_of(path);
    let mut i: usize = 0;
    assert(fv.skip(0) =~= fv);
    while i < files.len()
        invariant
            i <= files@.len(),
            fv == file_views(files@),
            p@ == path@,
            file_lookup(fv, path@) == file_lookup(fv.skip(i as int), path@),
        decreases files.len() - i,
    {
        assert(fv.skip(i as int)[0] == (files@[i as int].0@, files@[i as int].1@));
        let k = chars_of(files[i].0.as_str());
        if chars_eq(k.as_slice(), p.as_slice()) {
            return Some(i);
        }
        assert(fv.skip(i as int).drop_first() =~= fv.skip(i + 1));
        i = i + 1;
    }
    None
}

/// Adds `key` to the strictly ascending list `out` unless it is there already.
fn insert_ascending(out: &mut Vec<String>, key: &str)
    requires
        strictly_ascending(string_views(old(out)@)),
    ensures
        strictly_ascending(string_views(final(out)@)),
        forall|k: Seq<char>|
            string_views(final(out)@).contains(k) <==> (string_views(old(out)@).contains(k) || k
                == key@),
{
    let ghost before = string_views(out@);
    let kv = chars_of(key);
    let mut i: usize = 0;
    while i < out.len() && text_lt(chars_of(out[i].as_str()).as_slice(), kv.as_slice())
        invariant
            i <= out@.len(),
            before == string_views(out@),
            kv@ == key@,
            strictly_ascending(before),
            forall|k: int| 0 <= k < i ==> seq_lt(#[trigger] before[k], key@),
        decreases out.len() - i,
    {
        i = i + 1;
    }
    if i < out.len() {
        let c = chars_of(out[i].as_str());
        assert(before[i as int] == c@);
        if chars_eq(c.as_slice(), kv.as_slice()) {
            assert(before[i as int] == key@);
            return;
        }
    }
    proof {
        if i < before.len() {
            lemma_seq_lt_total(before[i as int], key@);
            assert(seq_lt(key@, before[i as int]));
            assert forall|k: int| i <= k < before.len() implies seq_lt(key@, #[trigger] before[k]) by {
                if k > i {
                    lemma_seq_lt_transitive(key@, before[i as int], before[k]);
                }
            }
        }
    }
    out.insert(i, key.to_string());
    let ghost after = string_views(out@);
    assert(after =~= before.insert(i as int, key@));
    assert forall|a: int, b: int| 0 <= a < b < after.len() implies seq_lt(
        #[trigger] after[a],
        #[trigger] after[b],
    ) by {
        if b < i {
        } else if a < i && b == i {
        } else if a < i {
            lemma_seq_lt_transitive(after[a], key@, after[b]);
        } else if a == i {
        } else {
            assert(after[a] == before[a - 1] && after[b] == before[b - 1]);
        }
    }
    assert forall|k: Seq<char>| after.contains(k) <==> (before.contains(k) || k == key@) by {
        if after.contains(k) {
            let j = choose|j: int| 0 <= j < after.len() && after[j] == k;
            if j < i {
                assert(before[j] == k);
            } else if j > i {
                assert(before[j - 1] == k);
            }
        }
        if before.contains(k) {
            let j = choose|j: int| 0 <= j < before.len() && before[j] == k;
            if j < i {
                assert(after[j] == k);
            } else {
                assert(after[j + 1] == k);
            }
        }
        if k == key@ {
            assert(after[i as int] == k);
        }
    }
}

/// Adds to `changed` each path of `files` whose bytes differ between the snapshots.
fn collect_changes(
    files: &Vec<(String, Vec<u8>)>,
    before: &Vec<(String, Vec<u8>)>,
    after: &Vec<(String, Vec<u8>)>,
    changed: &mut Vec<String>,
)
    requires
        strictly_ascending(string_views(old(changed)@)),
    ensures
        strictly_ascending(string_views(final(changed)@)),
        forall|k: Seq<char>|
            string_views(final(changed)@).contains(k) <==> (string_views(old(changed)@).contains(k)
                || (file_views(files@).map_values(|f: (Seq<char>, Seq<u8>)| f.0).contains(k)
                && file_changed(file_views(before@), file_views(after@), k))),
{
    let ghost start = string_views(changed@);
    let ghost keys = file_views(files@).map_values(|f: (Seq<char>, Seq<u8>)| f.0);
    let mut i: usize = 0;
    while i < files.len()
        invariant
            i <= files@.len(),
            keys == file_views(files@).map_values(|f: (Seq<char>, Seq<u8>)| f.0),
            keys.len() == files@.len(),
            strictly_ascending(string_views(changed@)),
            forall|k: Seq<char>|
                string_views(changed@).contains(k) <==> (start.contains(k) || (keys.take(
                    i as int,
                ).contains(k) && file_changed(file_views(before@), file_views(after@), k))),
        decreases files.len() - i,
    {
        let key = files[i].0.as_str();
        assert(keys[i as int] == key@);
        let prev = lookup_file(before, key);
        let cur = lookup_file(after, key);
        let differs = match (prev, cur) {
            (Some(p), Some(c)) => !bytes_eq(before[p].1.as_slice(), after[c].1.as_slice()),
            (None, None) => false,
            _ => true,
        };
        assert(differs == file_changed(file_views(before@), file_views(after@), key@));
        let ghost mid = string_views(changed@);
        if differs {
            insert_ascending(changed, key);
        }
        let ghost now = string_views(changed@);
        assert(keys.take(i + 1) =~= keys.take(i as int).push(key@));
        assert forall|k: Seq<char>|
            now.contains(k) <==> (start.contains(k) || (keys.take(i + 1).contains(k)
                && file_changed(file_views(before@), file_views(after@), k))) by {
            let t1 = keys.take(i + 1);
            let t0 = keys.take(i as int);
            assert(mid.contains(k) <==> (start.contains(k) || (t0.contains(k) && file_changed(
                file_views(before@),
                file_views(after@),
                k,
            ))));
            if differs {
                assert(now.contains(k) <==> (mid.contains(k) || k == key@));
            } else {
                assert(now == mid);
            }
            if t1.contains(k) && !t0.contains(k) {
                let j = choose|j: int| 0 <= j < t1.len() && t1[j] == k;
                if j < i {
                    assert(t0[j] == k);
                }
            }
            if t0.contains(k) {
                let j = choose|j: int| 0 <= j < t0.len() && t0[j] == k;
                assert(t1[j] == k);
            }
            if k == key@ {
                assert(keys.take(i + 1)[i as int] == k);
            }
        }
        i = i + 1;
    }
    assert(keys.take(files@.len() as int) =~= keys);
}

/// The paths of the files that differ between two snapshots of a workspace (added,
/// removed or changed), each once, in ascending order.
pub fn diff_workspace(before: &Vec<(String, Vec<u8>)>, after: &Vec<(String, Vec<u8>)>) -> (r: Vec<
    String,
>)
    ensures
        strictly_ascending(string_views(r@)),
        forall|k: Seq<char>|
            string_views(r@).contains(k) <==> file_changed(file_views(before@), file_views(after@), k),
{
    let mut changed: Vec<String> = Vec::new();
    assert(string_views(changed@) =~= Seq::<Seq<char>>::empty());
    collect_changes(before, before, after, &mut changed);
    collect_changes(after, before, after, &mut changed);
    proof {
        assert forall|k: Seq<char>|
            file_changed(file_views(before@), file_views(after@), k) implies string_views(
            changed@,
        ).contains(k) by {
            lemma_lookup_present(file_views(before@), k);
            lemma_lookup_present(file_views(after@), k);
        }
    }
    changed
}

/// Two strictly ascending lists with the same members are the same list.
pub proof fn lemma_ascending_unique(s1: Seq<Seq<char>>, s2: Seq<Seq<char>>)
    requires
        strictly_ascending(s1),
        strictly_ascending(s2),
        forall|k: Seq<char>| s1.contains(k) <==> s2.contains(k),
    ensures
        s1 == s2,
    decreases s1.len() + s2.len(),
{
    if s1.len() == 0 {
        if s2.len() > 0 {
            assert(s2.contains(s2[0]));
        }
        assert(s1 =~= s2);
    } else if s2.len() == 0 {
        assert(s1.contains(s1[0]));
    } else {
        assert(s1.contains(s1[0]));
        assert(s2.contains(s2[0]));
        let i = choose|i: int| 0 <= i < s1.len() && s1[i] == s2[0];
        let j = choose|j: int| 0 <= j < s2.len() && s2[j] == s1[0];
        if j > 0 {
            assert(seq_lt(s2[0], s2[j]));
            if i > 0 {
                assert(seq_lt(s1[0], s1[i]));
                lemma_seq_lt_transitive(s2[0], s1[0], s2[0]);
                lemma_seq_lt_total(s2[0], s2[0]);
            } else {
                lemma_seq_lt_total(s2[0], s2[0]);
            }
        } else if i > 0 {
            assert(seq_lt(s1[0], s1[i]));
            lemma_seq_lt_total(s1[0], s1[0]);
        }
        assert(s1[0] == s2[0]);
        let t1 = s1.drop_first();
        let t2 = s2.drop_first();
        assert forall|k: Seq<char>| t1.contains(k) <==> t2.contains(k) by {
            if t1.contains(k) {
                let a = choose|a: int| 0 <= a < t1.len() && t1[a] == k;
                assert(s1[a + 1] == k);
                assert(seq_lt(s1[0], s1[a + 1]));
                lemma_seq_lt_total(s1[0], s1[0]);
                assert(s2.contains(k));
                let b = choose|b: int| 0 <= b < s2.len() && s2[b] == k;
                assert(b != 0);
                assert(t2[b - 1] == k);
            }
            if t2.contains(k) {
                let b = choose|b: int| 0 <= b < t2.len() && t2[b] == k;
                assert(s2[b + 1] == k);
                assert(seq_lt(s2[0], s2[b + 1]));
                lemma_seq_lt_total(s2[0], s2[0]);
                assert(s1.contains(k));
                let a = choose|a: int| 0 <= a < s1.len() && s1[a] == k;
                assert(a != 0);
                assert(t1[a - 1] == k);
            }
        }
        lemma_ascending_unique(t1, t2);
        assert(s1 =~= seq![s1[0]] + t1);
        assert(s2 =~= seq![s2[0]] + t2);
    }
}

/// Diffing is symmetric and a snapshot differs from itself nowhere: a list that
/// `diff_workspace` may give for `(a, b)` is the one it gives for `(b, a)`, and for
/// `(a, a)` it gives nothing.
pub proof fn law_diff_is_symmetric(
    a: Seq<(Seq<char>, Seq<u8>)>,
    b: Seq<(Seq<char>, Seq<u8>)>,
    ab: Seq<Seq<char>>,
    ba: Seq<Seq<char>>,
    aa: Seq<Seq<char>>,
)
    requires
        strictly_ascending(ab),
        forall|k: Seq<char>| ab.contains(k) <==> file_changed(a, b, k),
        strictly_ascending(ba),
        forall|k: Seq<char>| ba.contains(k) <==> file_changed(b, a, k),
        strictly_ascending(aa),
        forall|k: Seq<char>| aa.contains(k) <==> file_changed(a, a, k),
    ensures
        ab == ba,
        aa.len() == 0,
{
    lemma_ascending_unique(ab, ba);
    if aa.len() > 0 {
        assert(aa.contains(aa[0]));
    }
}

/// A path that a snapshot holds bytes for is one of its keys.
pub proof fn lemma_lookup_present(files: Seq<(Seq<char>, Seq<u8>)>, path: Seq<char>)
    ensures
        file_lookup(files, path) is Some ==> files.map_values(|f: (Seq<char>, Seq<u8>)| f.0).contains(
            path,
        ),
    decreases files.len(),
{
    let keys = files.map_values(|f: (Seq<char>, Seq<u8>)| f.0);
    if files.len() > 0 {
        if files[0].0 == path {
            assert(keys[0] == path);
        } else {
            lemma_lookup_present(files.drop_first(), path);
            let rest = files.drop_first().map_values(|f: (Seq<char>, Seq<u8>)| f.0);
            if file_lookup(files, path) is Some {
                let j = choose|j: int| 0 <= j < rest.len() && rest[j] == path;
                assert(keys[j + 1] == path);
            }
        }
    }
}

} // verus!
